//! One game: what a tick does, and what is drawn.

use vstd::prelude::*;
use crate::entity::manager::{
    all_drawn, all_ticked, collisions_reported, has_player, hits_among, placed, players_only,
    pushed_out, slot_of, spawned, survivors,
};
use crate::entity::player::sprites_complete;
use crate::entity::{Direction, Directions, Door, Enemy, Player, PlayerState};
use crate::fixed::{clamp_i32, saturate};
use crate::graphics::sprite::{AnimatedSprite, Sprite};
use crate::input::keyboard::InputEvent;
use crate::level::room::{Room, TILE_UNITS};
use crate::entity::message::answered;
use crate::entity::{
    AnyEntity, Entity, EntityId, EntityManager, Intent, Message, MessageDispatcher, Queues,
    RoomId, Telegram, PLAYER_ID,
};
use crate::input::keyboard::{KEY_A, KEY_D, KEY_S, KEY_W};
use crate::graphics::pixels::Color;
use crate::graphics::screen::Screen;
use crate::input::keyboard::{Key, KeyBoard};
use crate::level::level::Level;
use crate::vector::Vec2;

verus! {

/// The key that ends the game.
pub const EXIT_KEY: Key = 0x1B;

/// The key that halts the game and lets it go on.
pub const PAUSE_KEY: Key = 0x20;

/// How far from a door the player is put when it comes through, in units.
pub const OFFSET_FROM_DOOR: i32 = 12000;

#[derive(Debug, Eq, PartialEq, Copy, Clone, Structural)]
pub enum GameState {
    Start,
    Running,
    Pause,
    _LoadLevel,
    /// The room named is to be loaded; the flag says whether the game has
    /// just started.
    LoadRoom(RoomId, bool),
    End,
}

/// The fastest that the player moves, in units per tick.
pub const PLAYER_MAX_SPEED: i32 = 700;

/// The speed that enemies are made with, in units per tick.
pub const ENEMY_SPEED: i32 = 500;

/// The sprites that entities are made with.
pub struct Assets {
    pub player_up: Vec<Sprite>,
    pub player_down: Vec<Sprite>,
    /// Also used, mirrored, for a player that looks right.
    pub player_left: Vec<Sprite>,
    pub enemies: Vec<Sprite>,
}

impl Assets {
    /// There is at least one sprite of every sort.
    pub open spec fn wf(self) -> bool {
        &&& self.player_up@.len() > 0
        &&& self.player_down@.len() > 0
        &&& self.player_left@.len() > 0
        &&& self.enemies@.len() > 0
    }

    /// Whether there is at least one sprite of every sort.
    pub fn is_complete(&self) -> (complete: bool)
        ensures
            complete == self.wf(),
    {
        self.player_up.len() > 0 && self.player_down.len() > 0 && self.player_left.len() > 0
            && self.enemies.len() > 0
    }
}

/// The thresholds of the animation of the player.
pub open spec fn player_timing() -> Seq<u8> {
    seq![5u8, 10u8, 15u8]
}

/// The thresholds of the animation of an enemy.
pub open spec fn enemy_timing() -> Seq<u8> {
    seq![30u8, 45u8, 55u8, 60u8, 65u8]
}

/// Whether `sprite` is a fresh animation of `frames` with the thresholds
/// `timing`.
pub open spec fn is_new_animation(sprite: AnimatedSprite, frames: Seq<Sprite>, timing: Seq<u8>) -> bool {
    &&& sprite.wf()
    &&& sprite.frames() == frames
    &&& sprite.timing() == timing
    &&& sprite.current() == 0
    &&& sprite.timer() == 0
}

/// Whether `player` is a player as the game makes it at its start: at rest
/// at the origin, facing right, walking, wanting nothing, with the sprites
/// of `assets` for up, down, left and right.
pub open spec fn is_new_player(player: Player, assets: Assets) -> bool {
    &&& player.wf()
    &&& player.moving().position() == (Vec2 { x: 0, y: 0 })
    &&& player.moving().velocity() == (Vec2 { x: 0, y: 0 })
    &&& player.moving().mass() == crate::entity::player::PLAYER_MASS
    &&& player.moving().max_speed() == PLAYER_MAX_SPEED
    &&& player.moving().max_force() == crate::entity::player::PLAYER_MAX_FORCE
    &&& player.directions() == Directions::spec_empty().spec_with(Direction::Right)
    &&& player.facing() == Direction::Right
    &&& player.aim() is None
    &&& !player.spec_removed()
    &&& !player.spec_collides()
    &&& player.spec_id() == PLAYER_ID
    &&& !player.intent().moves()
    &&& player.intent().aim() is None
    &&& player.machine() matches Some(machine) && machine.global() is None && machine.current()
        == PlayerState::Walking && machine.previous() == PlayerState::Walking
    &&& player.sprites().len() == 4
    &&& player.sprites()[0].0 == Direction::Up
    &&& player.sprites()[1].0 == Direction::Down
    &&& player.sprites()[2].0 == Direction::Left
    &&& player.sprites()[3].0 == Direction::Right
    &&& is_new_animation(player.sprites()[0].1, assets.player_up@, player_timing())
    &&& is_new_animation(player.sprites()[1].1, assets.player_down@, player_timing())
    &&& is_new_animation(player.sprites()[2].1, assets.player_left@, player_timing())
    &&& is_new_animation(player.sprites()[3].1, assets.player_left@, player_timing())
}

/// Whether `enemy` is an enemy as the game makes it, at `position`.
pub open spec fn is_new_enemy(enemy: Enemy, position: Vec2, assets: Assets) -> bool {
    &&& enemy.wf()
    &&& enemy.position() == position
    &&& enemy.spec_id() == crate::entity::INVALID_ID
    &&& !enemy.spec_removed()
    &&& is_new_animation(enemy.sprite(), assets.enemies@, enemy_timing())
}

/// The entities and the next fresh handle once a door has been registered
/// for every doorway of `doors`, in their order.
pub open spec fn with_doors(
    entities: Seq<AnyEntity>,
    next_id: EntityId,
    doors: Seq<Option<((u32, u32), RoomId)>>,
) -> (Seq<AnyEntity>, EntityId)
    decreases doors.len(),
{
    if doors.len() == 0 {
        (entities, next_id)
    } else {
        let (so_far, fresh) = with_doors(entities, next_id, doors.drop_last());
        match doors.last() {
            Some(info) => (
                placed(so_far, AnyEntity::Door(Door::spec_new(info.0, info.1)).with_id(fresh)),
                (fresh + 1) as EntityId,
            ),
            None => (so_far, fresh),
        }
    }
}

/// The place of the first doorway of `doors` that leads to `room`, or their
/// number where none does.
pub open spec fn door_back(doors: Seq<Option<((u32, u32), RoomId)>>, room: RoomId) -> int
    decreases doors.len(),
{
    if doors.len() == 0 {
        0
    } else if doors[0] matches Some(info) && info.1 == room {
        0
    } else {
        1 + door_back(doors.drop_first(), room)
    }
}

/// Where along one axis a player is put that comes through a door at
/// `door`: twelve pixels from the door toward the spawn point of the room.
pub open spec fn entry_along(middle: int, door: int) -> int {
    if middle - door > 0 {
        door + OFFSET_FROM_DOOR
    } else if middle - door < 0 {
        door - OFFSET_FROM_DOOR
    } else {
        door
    }
}

/// Where the player is put when it enters `room`: on the spawn point when
/// the game has just started, and else next to the door that leads back to
/// the room it comes from.
pub open spec fn entry_point(room: Room, from: RoomId, game_start: bool) -> Vec2 {
    let middle = room.spec_middle_point();
    if game_start {
        middle
    } else {
        let doorway = room.load_info.doors@[door_back(room.load_info.doors@, from)];
        let cell = (doorway->0).0;
        Vec2 {
            x: clamp_i32(entry_along(middle.x as int, cell.0 * TILE_UNITS)) as i32,
            y: clamp_i32(entry_along(middle.y as int, cell.1 * TILE_UNITS)) as i32,
        }
    }
}

/// Finds the first doorway that leads to `room`.
fn find_door_back(doors: &[Option<((u32, u32), RoomId)>; 4], room: RoomId) -> (place: usize)
    ensures
        place == door_back(doors@, room),
        place <= 4,
        place < 4 ==> doors@[place as int] is Some,
{
    let mut k: usize = 0;
    assert(doors@.subrange(0, 4) == doors@);
    while k < 4
        invariant
            k <= 4,
            doors@.len() == 4,
            door_back(doors@, room) == k + door_back(doors@.subrange(k as int, 4), room),
        decreases 4 - k,
    {
        let ghost rest = doors@.subrange(k as int, 4);
        assert(rest.drop_first() == doors@.subrange(k + 1, 4));
        if let Some(info) = doors[k] {
            if info.1 == room {
                return k;
            }
        }
        k += 1;
    }
    4
}

/// Computes where along one axis a player is put that comes through a door.
fn enter_along(middle: i64, door: i64) -> (entry: i64)
    requires
        -0x8000_0000 <= middle <= 0x7fff_ffff,
        0 <= door <= 0x1_0000_0000 * 16000,
    ensures
        entry == entry_along(middle as int, door as int),
{
    if middle - door > 0 {
        door + OFFSET_FROM_DOOR as i64
    } else if middle - door < 0 {
        door - OFFSET_FROM_DOOR as i64
    } else {
        door
    }
}

/// A fresh animation of copies of `frames`.
fn animation(frames: &Vec<Sprite>, timing: Vec<u8>) -> (sprite: AnimatedSprite)
    requires
        frames@.len() > 0,
        timing@.len() > 0,
    ensures
        is_new_animation(sprite, frames@, timing@),
{
    let mut copies: Vec<Sprite> = Vec::new();
    let mut i: usize = 0;
    while i < frames.len()
        invariant
            i <= frames@.len(),
            copies@ == frames@.subrange(0, i as int),
        decreases frames@.len() - i,
    {
        copies.push(frames[i].clone());
        i += 1;
    }
    assert(frames@.subrange(0, frames@.len() as int) == frames@);
    AnimatedSprite::new(copies, timing)
}

pub struct Game {
    window_dimensions: (u32, u32),
    offset: Vec2,
    scale: u32,
    state: GameState,
    pub keyboard: KeyBoard,
    screen: Screen,
    level: Level,
    entity_manager: EntityManager,
    dispatcher: MessageDispatcher,
}

/// How far a view is scrolled along one axis, in pixels: it follows the
/// player, who is kept in the middle, but does not leave the level.
pub open spec fn scrolled_along(player: int, level: int, window: int) -> int {
    let half = window / 2;
    if player < half || level <= window {
        0
    } else if player > level - half {
        level - window
    } else {
        player - half
    }
}

/// The place of the first telegram in `queue` that asks for a room, or the
/// length of the queue where none does.
pub open spec fn first_load(queue: Seq<Telegram>) -> int
    decreases queue.len(),
{
    if queue.len() == 0 {
        0
    } else if queue[0].message is LoadRoom {
        0
    } else {
        1 + first_load(queue.drop_first())
    }
}

/// The place that `first_load` finds lies in the queue or just behind it.
pub proof fn lemma_first_load(queue: Seq<Telegram>)
    ensures
        0 <= first_load(queue) <= queue.len(),
    decreases queue.len(),
{
    if queue.len() > 0 && !(queue[0].message is LoadRoom) {
        lemma_first_load(queue.drop_first());
    }
}

/// What the player wants, as the keyboard says.
pub open spec fn intent_of(keyboard: KeyBoard) -> Intent {
    Intent {
        up: keyboard.up,
        down: keyboard.down,
        left: keyboard.left,
        right: keyboard.right,
        shoot_up: keyboard.keys@.contains(KEY_W),
        shoot_down: keyboard.keys@.contains(KEY_S),
        shoot_left: keyboard.keys@.contains(KEY_A),
        shoot_right: keyboard.keys@.contains(KEY_D),
    }
}

/// The red of the pixel that marks the mouse.
pub open spec fn mouse_red() -> Color {
    Color { r: 255, g: 0, b: 0, a: 255 }
}

impl Game {
    /// Width and height of the window, in pixels of the game.
    pub closed spec fn window(self) -> (u32, u32) {
        self.window_dimensions
    }

    /// How far the view is scrolled, in pixels.
    pub closed spec fn scroll(self) -> Vec2 {
        self.offset
    }

    /// How many pixels of the window make one pixel of the game.
    pub closed spec fn spec_scale(self) -> u32 {
        self.scale
    }

    pub closed spec fn spec_state(self) -> GameState {
        self.state
    }

    pub closed spec fn keys(self) -> KeyBoard {
        self.keyboard
    }

    pub closed spec fn spec_screen(self) -> Screen {
        self.screen
    }

    pub closed spec fn spec_level(self) -> Level {
        self.level
    }

    pub closed spec fn manager(self) -> EntityManager {
        self.entity_manager
    }

    pub closed spec fn spec_dispatcher(self) -> MessageDispatcher {
        self.dispatcher
    }

    pub open spec fn queues(self) -> Queues {
        self.spec_dispatcher()@
    }

    /// The parts of the game are sound and fit each other: the screen is as
    /// large as the window, the view is scrolled within the level, and no
    /// telegram for an entity waits between two ticks.
    pub open spec fn wf(self) -> bool {
        &&& self.spec_scale() > 0
        &&& self.spec_screen().wf()
        &&& self.spec_screen().spec_width() == self.window().0
        &&& self.spec_screen().spec_height() == self.window().1
        &&& self.window().0 <= 0x2000_0000
        &&& self.window().1 <= 0x2000_0000
        &&& self.spec_level().wf()
        &&& self.manager().wf()
        &&& self.spec_dispatcher().wf()
        &&& self.queues().general.len() == 0
        &&& 0 <= self.scroll().x <= 0x4000_0000
        &&& 0 <= self.scroll().y <= 0x4000_0000
        &&& !(self.spec_state() is Start) ==> has_player(self.manager().entities())
    }

    /// Everything but the state, the keyboard, the manager, the dispatcher
    /// and the scrolling of the view is as in `other`.
    pub open spec fn same_frame(self, other: Game) -> bool {
        &&& self.window() == other.window()
        &&& self.spec_scale() == other.spec_scale()
        &&& self.spec_screen() == other.spec_screen()
        &&& self.spec_level() == other.spec_level()
    }

    /// The state that the keys ask for: the pause key halts the game, the
    /// exit key ends it, and the pause key wins.
    pub open spec fn wanted_state(self) -> GameState {
        if self.keys().keys@.contains(PAUSE_KEY) {
            GameState::Pause
        } else if self.keys().keys@.contains(EXIT_KEY) {
            GameState::End
        } else {
            self.spec_state()
        }
    }

    /// What the player is told to want in this tick. Halting the game lets
    /// go of every key but the arrows.
    pub open spec fn wanted_intent(self) -> Intent {
        if self.keys().keys@.contains(PAUSE_KEY) {
            Intent {
                shoot_up: false,
                shoot_down: false,
                shoot_left: false,
                shoot_right: false,
                ..intent_of(self.keys())
            }
        } else {
            intent_of(self.keys())
        }
    }

    /// Whether a tick without a change of room can turn this game into
    /// `after`. In this order: the manager spawns what it was asked for;
    /// the player is checked for collisions and pushed out; the reports of
    /// the collisions are delivered and answered; the player is told what
    /// is wanted of it; every entity has its tick, and those marked for
    /// removal are dropped; and the view follows the player.
    pub open spec fn simulates_to(self, after: Game) -> bool {
        let (born, fresh) = spawned(
            self.manager().entities(),
            self.manager().spec_next_id(),
            self.queues().manager,
        );
        let slot = slot_of(born, PLAYER_ID);
        let hits = hits_among(born[slot], born);
        let pushed = born.update(slot, pushed_out(born[slot], hits));
        let reported = collisions_reported(
            Queues { game: Seq::empty(), manager: Seq::empty(), general: Seq::empty() },
            hits,
        );
        let answers = answered(
            Queues { general: Seq::empty(), ..reported },
            reported.general,
            pushed,
        );
        let told = pushed.update(slot, pushed[slot].with_intent(self.wanted_intent()));
        &&& after.manager().spec_next_id() == fresh
        &&& exists|ticked: Seq<AnyEntity>| #[trigger]
            all_ticked(told, self.spec_level().spec_current_room(), answers, ticked, after.queues())
                && after.manager().entities() == survivors(ticked)
        &&& after.scroll() == {
            let player = after.manager().entity(PLAYER_ID).model();
            if player.collided {
                self.scroll()
            } else {
                self.spec_scrolled(player.position.spec_to_pixels())
            }
        }
    }

    /// A game that has not started, with an empty screen of the size of the
    /// window.
    pub fn new(width: u32, height: u32, scale: u32, level: Level) -> (game: Game)
        requires
            scale > 0,
            width <= 0x2000_0000,
            height <= 0x2000_0000,
            4 * width * height <= isize::MAX,
            level.wf(),
        ensures
            game.wf(),
            game.window() == (width, height),
            game.scroll() == (Vec2 { x: 0, y: 0 }),
            game.spec_scale() == scale,
            game.spec_state() == GameState::Start,
            game.spec_level() == level,
            game.manager().entities().len() == 0,
            game.queues().game.len() == 0,
            game.queues().manager.len() == 0,
    {
        Game {
            window_dimensions: (width, height),
            offset: Vec2::zero(),
            scale,
            state: GameState::Start,
            keyboard: KeyBoard::new(),
            screen: Screen::new(width, height),
            level,
            entity_manager: EntityManager::new(),
            dispatcher: MessageDispatcher::new(),
        }
    }

    pub fn state(&self) -> (state: GameState)
        ensures
            state == self.spec_state(),
    {
        self.state
    }

    /// What has been drawn.
    pub fn screen(&self) -> (screen: &Screen)
        ensures
            *screen == self.spec_screen(),
    {
        &self.screen
    }

    /// How far the view is scrolled, in pixels.
    pub fn offset(&self) -> (offset: Vec2)
        ensures
            offset == self.scroll(),
    {
        self.offset
    }

    pub fn entity_manager(&self) -> (manager: &EntityManager)
        ensures
            *manager == self.manager(),
    {
        &self.entity_manager
    }

    pub fn level(&self) -> (level: &Level)
        ensures
            *level == self.spec_level(),
    {
        &self.level
    }

    fn stop(&mut self)
        ensures
            *final(self) == (Game { state: GameState::End, ..*old(self) }),
    {
        self.state = GameState::End;
    }

    fn pause(&mut self)
        ensures
            final(self).spec_state() == GameState::Pause,
            final(self).keys().keys@ == Set::<Key>::empty(),
            final(self).keys().up == old(self).keys().up,
            final(self).keys().down == old(self).keys().down,
            final(self).keys().left == old(self).keys().left,
            final(self).keys().right == old(self).keys().right,
            final(self).keys().mouse_pos == old(self).keys().mouse_pos,
            final(self).window() == old(self).window(),
            final(self).scroll() == old(self).scroll(),
            final(self).spec_scale() == old(self).spec_scale(),
            final(self).spec_screen() == old(self).spec_screen(),
            final(self).spec_level() == old(self).spec_level(),
            final(self).manager() == old(self).manager(),
            final(self).spec_dispatcher() == old(self).spec_dispatcher(),
    {
        self.state = GameState::Pause;
        self.keyboard.clear();
    }

    fn resume(&mut self)
        ensures
            final(self).spec_state() == GameState::Running,
            final(self).keys().keys@ == Set::<Key>::empty(),
            final(self).keys().up == old(self).keys().up,
            final(self).keys().down == old(self).keys().down,
            final(self).keys().left == old(self).keys().left,
            final(self).keys().right == old(self).keys().right,
            final(self).keys().mouse_pos == old(self).keys().mouse_pos,
            final(self).window() == old(self).window(),
            final(self).scroll() == old(self).scroll(),
            final(self).spec_scale() == old(self).spec_scale(),
            final(self).spec_screen() == old(self).spec_screen(),
            final(self).spec_level() == old(self).spec_level(),
            final(self).manager() == old(self).manager(),
            final(self).spec_dispatcher() == old(self).spec_dispatcher(),
    {
        self.state = GameState::Running;
        self.keyboard.clear();
    }

    /// Lets the exit key end the game and the pause key halt it.
    fn handle_keys(&mut self)
        ensures
            final(self).spec_state() == old(self).wanted_state(),
            final(self).same_frame(*old(self)),
            final(self).scroll() == old(self).scroll(),
            final(self).manager() == old(self).manager(),
            final(self).spec_dispatcher() == old(self).spec_dispatcher(),
            intent_of(final(self).keys()) == old(self).wanted_intent(),
            final(self).keys().mouse_pos == old(self).keys().mouse_pos,
    {
        if self.keyboard.contains_key(&EXIT_KEY) {
            self.stop();
        }
        if self.keyboard.contains_key(&PAUSE_KEY) {
            self.pause();
        }
    }

    /// Takes the telegrams for the game, oldest first, up to the first that
    /// asks for a room, and answers which room that is.
    fn poll_load_request(&mut self) -> (request: Option<RoomId>)
        requires
            old(self).spec_dispatcher().wf(),
        ensures
            final(self).spec_dispatcher().wf(),
            final(self).spec_state() == old(self).spec_state(),
            final(self).keys() == old(self).keys(),
            final(self).same_frame(*old(self)),
            final(self).scroll() == old(self).scroll(),
            final(self).manager() == old(self).manager(),
            final(self).queues().manager == old(self).queues().manager,
            final(self).queues().general == old(self).queues().general,
            first_load(old(self).queues().game) < old(self).queues().game.len() ==> request
                == Some(
                old(self).queues().game[first_load(old(self).queues().game)].message->LoadRoom_0,
            ) && final(self).queues().game == old(self).queues().game.subrange(
                first_load(old(self).queues().game) + 1,
                old(self).queues().game.len() as int,
            ),
            first_load(old(self).queues().game) >= old(self).queues().game.len() ==> request
                is None && final(self).queues().game.len() == 0,
    {
        let ghost queue = self.dispatcher@.game;
        let ghost mut polled: int = 0;
        loop
            invariant
                self.dispatcher.wf(),
                self.state == old(self).state,
                self.keyboard == old(self).keyboard,
                self.same_frame(*old(self)),
                self.offset == old(self).offset,
                self.entity_manager == old(self).entity_manager,
                self.dispatcher@.manager == old(self).dispatcher@.manager,
                self.dispatcher@.general == old(self).dispatcher@.general,
                queue == old(self).dispatcher@.game,
                0 <= polled <= queue.len(),
                self.dispatcher@.game == queue.subrange(polled, queue.len() as int),
                first_load(queue) == polled + first_load(queue.subrange(polled, queue.len() as int)),
            decreases queue.len() - polled,
        {
            let ghost waiting = self.dispatcher@.game;
            match self.dispatcher.poll_game_message() {
                Some(Telegram { sender: _, receiver: _, message }) => {
                    proof {
                        assert(waiting.drop_first() == queue.subrange(
                            polled + 1,
                            queue.len() as int,
                        ));
                        lemma_first_load(waiting.drop_first());
                        assert(first_load(waiting) == if message is LoadRoom {
                            0
                        } else {
                            1 + first_load(waiting.drop_first())
                        });
                    }
                    match message {
                        Message::LoadRoom(id) => {
                            return Some(id);
                        },
                        _ => {},
                    }
                    proof {
                        polled = polled + 1;
                    }
                },
                None => {
                    return None;
                },
            }
        }
    }

    /// Hands the manager every telegram that waits for it. A request to
    /// spawn is dropped when no fresh handle is left.
    fn handle_spawns(&mut self)
        requires
            old(self).manager().wf(),
            old(self).spec_dispatcher().wf(),
        ensures
            final(self).manager().wf(),
            final(self).spec_dispatcher().wf(),
            final(self).spec_state() == old(self).spec_state(),
            final(self).keys() == old(self).keys(),
            final(self).same_frame(*old(self)),
            final(self).scroll() == old(self).scroll(),
            (final(self).manager().entities(), final(self).manager().spec_next_id()) == spawned(
                old(self).manager().entities(),
                old(self).manager().spec_next_id(),
                old(self).queues().manager,
            ),
            final(self).queues().manager.len() == 0,
            final(self).queues().game == old(self).queues().game,
            final(self).queues().general == old(self).queues().general,
            has_player(old(self).manager().entities()) ==> has_player(
                final(self).manager().entities(),
            ),
    {
        let ghost requests = self.dispatcher@.manager;
        let ghost entities = self.entity_manager.entities();
        let ghost next_id = self.entity_manager.spec_next_id();
        let ghost mut done: int = 0;
        loop
            invariant
                self.entity_manager.wf(),
                self.dispatcher.wf(),
                self.state == old(self).state,
                self.keyboard == old(self).keyboard,
                self.same_frame(*old(self)),
                self.offset == old(self).offset,
                self.dispatcher@.game == old(self).dispatcher@.game,
                self.dispatcher@.general == old(self).dispatcher@.general,
                requests == old(self).dispatcher@.manager,
                entities == old(self).entity_manager.entities(),
                next_id == old(self).entity_manager.spec_next_id(),
                0 <= done <= requests.len(),
                self.dispatcher@.manager == requests.subrange(done, requests.len() as int),
                (self.entity_manager.entities(), self.entity_manager.spec_next_id()) == spawned(
                    entities,
                    next_id,
                    requests.subrange(0, done),
                ),
                has_player(entities) ==> has_player(self.entity_manager.entities()),
            ensures
                self.dispatcher@.manager.len() == 0,
                done == requests.len(),
            decreases requests.len() - done,
        {
            let ghost waiting = self.dispatcher@.manager;
            let ghost so_far = self.entity_manager.entities();
            let ghost fresh = self.entity_manager.spec_next_id();
            match self.dispatcher.poll_entity_message() {
                Some(message) => {
                    proof {
                        let next = requests.subrange(0, done + 1);
                        assert(next.drop_last() == requests.subrange(0, done));
                        assert(waiting.subrange(1, waiting.len() as int) == requests.subrange(
                            done + 1,
                            requests.len() as int,
                        ));
                    }
                    let spawn = match message.message {
                        Message::SpawnEntity(_, _, _) => true,
                        _ => false,
                    };
                    if !spawn || self.entity_manager.has_free_id() {
                        self.entity_manager.handle_message(message, &mut self.dispatcher);
                        proof {
                            if let Message::SpawnEntity(position, heading, speed) = message.message {
                                let projectile = AnyEntity::Projectile(
                                    crate::entity::Projectile::spec_new(
                                        position,
                                        heading,
                                        speed,
                                        crate::entity::INVALID_ID,
                                    ),
                                );
                                crate::entity::manager::lemma_with_id(projectile, fresh);
                                if has_player(so_far) {
                                    crate::entity::manager::lemma_placed_keeps_player(
                                        so_far,
                                        projectile.with_id(fresh),
                                    );
                                }
                            }
                        }
                    }
                    proof {
                        done = done + 1;
                    }
                },
                None => {
                    break ;
                },
            }
        }
    }

    /// Makes the player and goes on to load the first room.
    fn begin(&mut self, assets: &Assets)
        requires
            old(self).wf(),
            assets.wf(),
        ensures
            final(self).wf(),
            has_player(final(self).manager().entities()),
            final(self).spec_state() == GameState::LoadRoom(0, true),
            final(self).keys() == old(self).keys(),
            final(self).same_frame(*old(self)),
            final(self).scroll() == old(self).scroll(),
            final(self).spec_dispatcher() == old(self).spec_dispatcher(),
            final(self).manager().spec_next_id() == old(self).manager().spec_next_id(),
            exists|player: Player| #[trigger]
                is_new_player(player, *assets) && final(self).manager().entities() == placed(
                    old(self).manager().entities(),
                    AnyEntity::Player(player),
                ),
    {
        let sprites = vec![
            (Direction::Up, animation(&assets.player_up, vec![5, 10, 15])),
            (Direction::Down, animation(&assets.player_down, vec![5, 10, 15])),
            (Direction::Left, animation(&assets.player_left, vec![5, 10, 15])),
            (Direction::Right, animation(&assets.player_left, vec![5, 10, 15])),
        ];
        proof {
            reveal_with_fuel(crate::entity::player::sprite_slot, 5);
        }
        let player = Player::new(PLAYER_MAX_SPEED, sprites, Intent::idle(), PLAYER_ID);
        proof {
            assert(is_new_player(player, *assets));
            crate::entity::manager::lemma_placed_found(
                self.entity_manager.entities(),
                AnyEntity::Player(player),
            );
        }
        self.entity_manager.add_entity(AnyEntity::Player(player));
        self.state = GameState::LoadRoom(0, true);
    }

    /// Whether the game is sound and can take its next step: a room that is
    /// to be loaded exists, a player that comes through a door finds the
    /// door back, and enough fresh handles are left for what the room
    /// holds.
    pub open spec fn can_step(self, assets: Assets) -> bool {
        &&& self.wf()
        &&& assets.wf()
        &&& match self.spec_state() {
            GameState::LoadRoom(id, game_start) => {
                &&& self.spec_level().rooms().contains_key(id)
                &&& self.manager().spec_next_id() <= u32::MAX - 6
                &&& !game_start ==> door_back(
                    self.spec_level().rooms()[id].load_info.doors@,
                    self.spec_level().spec_current_room_id(),
                ) < 4
            },
            _ => true,
        }
    }

    /// Whether the next step can be taken, for a game that is sound.
    pub fn ready(&self, assets: &Assets) -> (ready: bool)
        requires
            self.wf(),
        ensures
            ready == self.can_step(*assets),
    {
        if !assets.is_complete() {
            return false;
        }
        match self.state {
            GameState::LoadRoom(id, game_start) => {
                match self.level.get_room(id) {
                    Some(room) => {
                        if !self.entity_manager.has_ids_left(6) {
                            return false;
                        }
                        game_start || find_door_back(
                            &room.load_info.doors,
                            self.level.current_room_id(),
                        ) < 4
                    },
                    None => false,
                }
            },
            _ => true,
        }
    }

    /// Whether loading room `id` can turn this game into `after`: the room
    /// becomes the current one; every entity but the player is dropped; the
    /// player is put at the entry point; the view is scrolled back; two
    /// enemies are made, and a door for every doorway of the room; and the
    /// game runs.
    pub open spec fn enters_to(self, id: RoomId, game_start: bool, assets: Assets, after: Game) -> bool {
        let room = self.spec_level().rooms()[id];
        let kept = players_only(self.manager().entities());
        let slot = slot_of(kept, PLAYER_ID);
        let moved = kept.update(
            slot,
            kept[slot].with_position(
                entry_point(room, self.spec_level().spec_current_room_id(), game_start),
            ),
        );
        let fresh = self.manager().spec_next_id();
        &&& after.wf()
        &&& after.spec_state() == GameState::Running
        &&& after.scroll() == (Vec2 { x: 0, y: 0 })
        &&& after.window() == self.window()
        &&& after.spec_scale() == self.spec_scale()
        &&& after.spec_screen() == self.spec_screen()
        &&& after.keys() == self.keys()
        &&& after.spec_dispatcher() == self.spec_dispatcher()
        &&& after.spec_level().spec_current_room_id() == id
        &&& after.spec_level().rooms() == self.spec_level().rooms()
        &&& after.spec_level().grid() == self.spec_level().grid()
        &&& exists|first: Enemy, second: Enemy|
            {
                &&& #[trigger] is_new_enemy(first, Vec2 { x: 32000, y: 32000 }, assets)
                &&& #[trigger] is_new_enemy(second, Vec2 { x: 96000, y: 72000 }, assets)
                &&& (after.manager().entities(), after.manager().spec_next_id()) == with_doors(
                    placed(
                        placed(moved, AnyEntity::Enemy(first).with_id(fresh)),
                        AnyEntity::Enemy(second).with_id((fresh + 1) as EntityId),
                    ),
                    (fresh + 2) as EntityId,
                    room.load_info.doors@,
                )
            }
    }

    /// Loads a room.
    fn enter_room(&mut self, id: RoomId, game_start: bool, assets: &Assets)
        requires
            old(self).wf(),
            has_player(old(self).manager().entities()),
            assets.wf(),
            old(self).spec_level().rooms().contains_key(id),
            old(self).manager().spec_next_id() <= u32::MAX - 6,
            !game_start ==> door_back(
                old(self).spec_level().rooms()[id].load_info.doors@,
                old(self).spec_level().spec_current_room_id(),
            ) < 4,
        ensures
            old(self).enters_to(id, game_start, *assets, *final(self)),
            has_player(final(self).manager().entities()),
    {
        let prev_id = self.level.current_room_id();
        self.level.set_current_room(id);
        let ghost all = self.entity_manager.entities();
        self.entity_manager.clean_up();
        let ghost kept = self.entity_manager.entities();
        let ghost slot = slot_of(kept, PLAYER_ID);
        proof {
            crate::entity::manager::lemma_players_only_keep_player(all);
            crate::entity::manager::lemma_slot_of(kept, PLAYER_ID);
        }
        let room = self.level.current_room();
        let midle_point = room.middle_point();
        let enter_point = if game_start {
            midle_point
        } else {
            let k = find_door_back(&room.load_info.doors, prev_id);
            match room.load_info.doors[k] {
                Some(info) => {
                    let cell = info.0;
                    let x: i64 = cell.0 as i64 * TILE_UNITS;
                    let y: i64 = cell.1 as i64 * TILE_UNITS;
                    Vec2::new(
                        saturate(enter_along(midle_point.x as i64, x)),
                        saturate(enter_along(midle_point.y as i64, y)),
                    )
                },
                None => midle_point,
            }
        };
        proof {
            crate::entity::manager::lemma_with_position(kept[slot], enter_point);
            crate::entity::manager::lemma_replaced_keeps_wf(
                kept,
                slot,
                kept[slot].with_position(enter_point),
            );
        }
        let player = self.entity_manager.get_entity_mut(&PLAYER_ID);
        player.set_pos(enter_point);
        self.offset = Vec2::zero();
        let ghost moved = self.entity_manager.entities();
        let ghost fresh = self.entity_manager.spec_next_id();

        let first = Enemy::new(
            Vec2::new(32000, 32000),
            ENEMY_SPEED,
            animation(&assets.enemies, vec![30, 45, 55, 60, 65]),
        );
        proof {
            crate::entity::manager::lemma_with_id(AnyEntity::Enemy(first), fresh);
            crate::entity::manager::lemma_placed_keeps_player(
                moved,
                AnyEntity::Enemy(first).with_id(fresh),
            );
        }
        self.entity_manager.add_entity(AnyEntity::Enemy(first));
        let ghost one = self.entity_manager.entities();
        let second = Enemy::new(
            Vec2::new(96000, 72000),
            ENEMY_SPEED,
            animation(&assets.enemies, vec![30, 45, 55, 60, 65]),
        );
        proof {
            crate::entity::manager::lemma_with_id(
                AnyEntity::Enemy(second),
                (fresh + 1) as EntityId,
            );
            crate::entity::manager::lemma_placed_keeps_player(
                one,
                AnyEntity::Enemy(second).with_id((fresh + 1) as EntityId),
            );
        }
        self.entity_manager.add_entity(AnyEntity::Enemy(second));
        self.load_room();
        self.state = GameState::Running;
        proof {
            assert(is_new_enemy(first, Vec2 { x: 32000, y: 32000 }, *assets));
            assert(is_new_enemy(second, Vec2 { x: 96000, y: 72000 }, *assets));
        }
    }

    /// Whether `updates` ticks, one after the other, can turn this game into
    /// `after`.
    pub open spec fn runs_to(self, updates: nat, after: Game) -> bool
        decreases updates,
    {
        if updates == 0 {
            after == self
        } else {
            exists|between: Game|
                self.runs_to((updates - 1) as nat, between) && #[trigger] between.updates_to(after)
        }
    }

    /// Whether one step can turn this game into `after`, given what the
    /// window reports and how many ticks are due, and whether a frame is
    /// drawn. A game that starts makes its player; a game that is to load a
    /// room loads it; a halted game takes in the report, and the pause key
    /// lets it run again; a running game takes in the report, has its
    /// ticks and draws a frame; a game that has ended does nothing.
    pub open spec fn steps_to(
        self,
        event: InputEvent,
        updates: u32,
        assets: Assets,
        after: Game,
        drawn: bool,
    ) -> bool {
        match self.spec_state() {
            GameState::Start => {
                &&& !drawn
                &&& after.wf()
                &&& after.spec_state() == GameState::LoadRoom(0, true)
                &&& after.keys() == self.keys()
                &&& after.same_frame(self)
                &&& after.scroll() == self.scroll()
                &&& after.spec_dispatcher() == self.spec_dispatcher()
                &&& after.manager().spec_next_id() == self.manager().spec_next_id()
                &&& exists|player: Player| #[trigger]
                    is_new_player(player, assets) && after.manager().entities() == placed(
                        self.manager().entities(),
                        AnyEntity::Player(player),
                    )
            },
            GameState::LoadRoom(id, game_start) => !drawn && self.enters_to(
                id,
                game_start,
                assets,
                after,
            ),
            GameState::Pause => {
                &&& !drawn
                &&& after.wf()
                &&& after.same_frame(self)
                &&& after.scroll() == self.scroll()
                &&& after.manager() == self.manager()
                &&& after.spec_dispatcher() == self.spec_dispatcher()
                &&& exists|taken: KeyBoard| #[trigger]
                    self.keys().takes_in(event, taken) && if taken.keys@.contains(PAUSE_KEY) {
                        &&& after.spec_state() == GameState::Running
                        &&& after.keys().keys@ == Set::<Key>::empty()
                        &&& after.keys().up == taken.up
                        &&& after.keys().down == taken.down
                        &&& after.keys().left == taken.left
                        &&& after.keys().right == taken.right
                        &&& after.keys().mouse_pos == taken.mouse_pos
                    } else {
                        &&& after.spec_state() == GameState::Pause
                        &&& after.keys() == taken
                    }
            },
            GameState::Running => {
                &&& drawn
                &&& after.wf()
                &&& exists|taken: Game, ticked: Game|
                    {
                        &&& #[trigger] self.keys().takes_in(event, taken.keys())
                        &&& taken.spec_state() == self.spec_state()
                        &&& taken.same_frame(self)
                        &&& taken.scroll() == self.scroll()
                        &&& taken.manager() == self.manager()
                        &&& taken.spec_dispatcher() == self.spec_dispatcher()
                        &&& #[trigger] taken.runs_to(updates as nat, ticked)
                        &&& ticked.shows(after.spec_screen())
                        &&& after.spec_state() == ticked.spec_state()
                        &&& after.keys() == ticked.keys()
                        &&& after.window() == ticked.window()
                        &&& after.scroll() == ticked.scroll()
                        &&& after.spec_scale() == ticked.spec_scale()
                        &&& after.spec_level() == ticked.spec_level()
                        &&& after.manager() == ticked.manager()
                        &&& after.spec_dispatcher() == ticked.spec_dispatcher()
                    }
            },
            _ => !drawn && after == self,
        }
    }

    /// Takes one step of the game, and answers whether a frame has been
    /// drawn.
    pub fn step(&mut self, event: &InputEvent, updates: u32, assets: &Assets) -> (drawn: bool)
        requires
            old(self).can_step(*assets),
        ensures
            old(self).steps_to(*event, updates, *assets, *final(self), drawn),
            final(self).wf(),
    {
        match self.state {
            GameState::Start => {
                self.begin(assets);
                false
            },
            GameState::LoadRoom(id, game_start) => {
                self.enter_room(id, game_start, assets);
                false
            },
            GameState::Pause => {
                self.keyboard.update(event);
                let ghost taken = self.keyboard;
                if self.keyboard.contains_key(&PAUSE_KEY) {
                    self.resume();
                }
                proof {
                    assert(old(self).keys().takes_in(*event, taken));
                }
                false
            },
            GameState::Running => {
                self.keyboard.update(event);
                let ghost taken = *self;
                let mut n: u32 = 0;
                while n < updates
                    invariant
                        n <= updates,
                        self.wf(),
                        !(self.spec_state() is Start),
                        taken.runs_to(n as nat, *self),
                    decreases updates - n,
                {
                    self.update();
                    n += 1;
                }
                let ghost ticked = *self;
                self.render();
                proof {
                    assert(old(self).keys().takes_in(*event, taken.keys()) && taken.runs_to(
                        updates as nat,
                        ticked,
                    ));
                }
                true
            },
            _ => false,
        }
    }

    /// Registers a door for every doorway of the current room.
    fn load_room(&mut self)
        requires
            old(self).manager().wf(),
            old(self).spec_level().rooms().contains_key(old(self).spec_level().spec_current_room_id()),
            old(self).manager().spec_next_id() <= u32::MAX - 4,
        ensures
            final(self).manager().wf(),
            has_player(old(self).manager().entities()) ==> has_player(
                final(self).manager().entities(),
            ),
            final(self).spec_state() == old(self).spec_state(),
            final(self).keys() == old(self).keys(),
            final(self).same_frame(*old(self)),
            final(self).scroll() == old(self).scroll(),
            final(self).spec_dispatcher() == old(self).spec_dispatcher(),
            (final(self).manager().entities(), final(self).manager().spec_next_id()) == with_doors(
                old(self).manager().entities(),
                old(self).manager().spec_next_id(),
                old(self).spec_level().spec_current_room().load_info.doors@,
            ),
    {
        let ghost doors = self.level.spec_current_room().load_info.doors@;
        let ghost entities = self.entity_manager.entities();
        let ghost next_id = self.entity_manager.spec_next_id();
        let mut k: usize = 0;
        while k < 4
            invariant
                k <= 4,
                doors.len() == 4,
                doors == self.level.spec_current_room().load_info.doors@,
                self.level.rooms().contains_key(self.level.spec_current_room_id()),
                self.entity_manager.wf(),
                self.entity_manager.spec_next_id() <= next_id + k,
                next_id <= u32::MAX - 4,
                has_player(entities) ==> has_player(self.entity_manager.entities()),
                self.state == old(self).state,
                self.keyboard == old(self).keyboard,
                self.same_frame(*old(self)),
                self.offset == old(self).offset,
                self.dispatcher == old(self).dispatcher,
                (self.entity_manager.entities(), self.entity_manager.spec_next_id()) == with_doors(
                    entities,
                    next_id,
                    doors.subrange(0, k as int),
                ),
            decreases 4 - k,
        {
            let ghost so_far = self.entity_manager.entities();
            let ghost fresh = self.entity_manager.spec_next_id();
            let door_info = self.level.current_room().load_info.doors[k];
            proof {
                let next = doors.subrange(0, k + 1);
                assert(next.drop_last() == doors.subrange(0, k as int));
            }
            if let Some(info) = door_info {
                let door = Door::new(info.0, info.1);
                proof {
                    let registered = AnyEntity::Door(door).with_id(fresh);
                    crate::entity::manager::lemma_with_id(AnyEntity::Door(door), fresh);
                    if has_player(so_far) {
                        crate::entity::manager::lemma_placed_keeps_player(so_far, registered);
                    }
                }
                self.entity_manager.add_entity(AnyEntity::Door(door));
            }
            k += 1;
        }
        proof {
            assert(doors.subrange(0, 4) == doors);
        }
    }

    /// Checks the player for collisions, pushes it out, and delivers the
    /// reports.
    fn collide(&mut self)
        requires
            old(self).manager().wf(),
            has_player(old(self).manager().entities()),
            old(self).spec_dispatcher().wf(),
            old(self).queues() == (Queues {
                game: Seq::empty(),
                manager: Seq::empty(),
                general: Seq::empty(),
            }),
        ensures
            final(self).manager().wf(),
            has_player(final(self).manager().entities()),
            final(self).spec_dispatcher().wf(),
            final(self).spec_state() == old(self).spec_state(),
            final(self).keys() == old(self).keys(),
            final(self).same_frame(*old(self)),
            final(self).scroll() == old(self).scroll(),
            final(self).manager().spec_next_id() == old(self).manager().spec_next_id(),
            final(self).manager().entities() == old(self).manager().entities().update(
                slot_of(old(self).manager().entities(), PLAYER_ID),
                pushed_out(
                    old(self).manager().entity(PLAYER_ID),
                    hits_among(old(self).manager().entity(PLAYER_ID), old(self).manager().entities()),
                ),
            ),
            final(self).queues() == answered(
                Queues {
                    general: Seq::empty(),
                    ..collisions_reported(
                        old(self).queues(),
                        hits_among(
                            old(self).manager().entity(PLAYER_ID),
                            old(self).manager().entities(),
                        ),
                    )
                },
                collisions_reported(
                    old(self).queues(),
                    hits_among(old(self).manager().entity(PLAYER_ID), old(self).manager().entities()),
                ).general,
                final(self).manager().entities(),
            ),
            final(self).queues().general.len() == 0,
    {
        let ghost entities = self.entity_manager.entities();
        let ghost slot = slot_of(entities, PLAYER_ID);
        let ghost player = entities[slot];
        let ghost hits = hits_among(player, entities);
        let ghost empty = self.dispatcher@;
        proof {
            crate::entity::manager::lemma_slot_of(entities, PLAYER_ID);
            crate::entity::manager::lemma_pushed_out(player, hits);
            crate::entity::manager::lemma_replaced_keeps_wf(
                entities,
                slot,
                pushed_out(player, hits),
            );
        }
        self.entity_manager.check_collisions(&mut self.dispatcher);
        proof {
            let pushed = self.entity_manager.entities();
            assert forall|k: int| 0 <= k < hits.len() implies slot_of(
                pushed,
                (#[trigger] hits[k]).0,
            ) >= 0 by {
                crate::entity::manager::lemma_hits_are_entities(player, entities, k);
            }
            crate::entity::manager::lemma_reports_deliverable(empty, hits, pushed);
            crate::entity::message::lemma_answered_general(
                Queues { general: Seq::empty(), ..collisions_reported(empty, hits) },
                collisions_reported(empty, hits).general,
                pushed,
            );
            lemma_reports_keep_manager_queue(empty, hits);
        }
        self.dispatcher.dispatch_messages(&mut self.entity_manager);
    }

    /// Tells the player what the keyboard says, lets every entity have its
    /// tick, and drops the entities that are marked for removal.
    fn tick_entities(&mut self)
        requires
            old(self).manager().wf(),
            has_player(old(self).manager().entities()),
            old(self).spec_dispatcher().wf(),
            old(self).spec_level().wf(),
        ensures
            final(self).manager().wf(),
            has_player(final(self).manager().entities()),
            final(self).spec_dispatcher().wf(),
            final(self).spec_state() == old(self).spec_state(),
            final(self).keys() == old(self).keys(),
            final(self).same_frame(*old(self)),
            final(self).scroll() == old(self).scroll(),
            final(self).manager().spec_next_id() == old(self).manager().spec_next_id(),
            final(self).queues().general == old(self).queues().general,
            exists|ticked: Seq<AnyEntity>| #[trigger]
                all_ticked(
                    old(self).manager().entities().update(
                        slot_of(old(self).manager().entities(), PLAYER_ID),
                        old(self).manager().entity(PLAYER_ID).with_intent(intent_of(old(self).keys())),
                    ),
                    old(self).spec_level().spec_current_room(),
                    old(self).queues(),
                    ticked,
                    final(self).queues(),
                ) && final(self).manager().entities() == survivors(ticked),
    {
        let ghost entities = self.entity_manager.entities();
        let ghost slot = slot_of(entities, PLAYER_ID);
        let intent = Intent::from_keyboard(&self.keyboard);
        proof {
            crate::entity::manager::lemma_slot_of(entities, PLAYER_ID);
            entities[slot]->Player_0.lemma_with_intent(intent);
            crate::entity::manager::lemma_replaced_keeps_wf(
                entities,
                slot,
                entities[slot].with_intent(intent),
            );
        }
        let player = self.entity_manager.get_entity_mut(&PLAYER_ID);
        player.set_intent(intent);
        let ghost told = self.entity_manager.entities();
        let ghost queues = self.dispatcher@;
        let room = self.level.current_room();
        self.entity_manager.update(room, &mut self.dispatcher);
        proof {
            let ticked = choose|ticked: Seq<AnyEntity>| #[trigger]
                all_ticked(told, *room, queues, ticked, self.dispatcher@)
                    && self.entity_manager.entities() == survivors(ticked);
            crate::entity::manager::lemma_all_ticked(told, *room, queues, ticked, self.dispatcher@);
            assert forall|i: int, j: int|
                0 <= i < ticked.len() && 0 <= j < ticked.len() && i != j implies (#[trigger] ticked[i]).model().id
                != (#[trigger] ticked[j]).model().id by {}
            crate::entity::manager::lemma_same_ids_same_slots(told, ticked, PLAYER_ID);
            crate::entity::manager::lemma_survivors_keep_player(ticked);
            assert(told == entities.update(
                slot,
                old(self).manager().entity(PLAYER_ID).with_intent(intent_of(old(self).keys())),
            ));
            assert(all_ticked(
                entities.update(
                    slot,
                    old(self).manager().entity(PLAYER_ID).with_intent(intent_of(old(self).keys())),
                ),
                old(self).spec_level().spec_current_room(),
                old(self).queues(),
                ticked,
                self.queues(),
            ) && self.manager().entities() == survivors(ticked));
        }
    }

    /// Whether one tick can turn this game into `after`. The keys may end
    /// or halt the game. If a telegram asks the game for a room, the game
    /// goes to load that room; the telegrams before it are dropped, and
    /// nothing else happens. Otherwise the entities are simulated for a
    /// tick.
    pub open spec fn updates_to(self, after: Game) -> bool {
        let queue = self.queues().game;
        &&& after.wf()
        &&& after.same_frame(self)
        &&& intent_of(after.keys()) == self.wanted_intent()
        &&& after.keys().mouse_pos == self.keys().mouse_pos
        &&& if first_load(queue) < queue.len() {
            &&& after.spec_state() == GameState::LoadRoom(
                queue[first_load(queue)].message->LoadRoom_0,
                false,
            )
            &&& after.queues().game == queue.subrange(first_load(queue) + 1, queue.len() as int)
            &&& after.queues().manager == self.queues().manager
            &&& after.manager() == self.manager()
            &&& after.scroll() == self.scroll()
        } else {
            &&& after.spec_state() == self.wanted_state()
            &&& self.simulates_to(after)
        }
    }

    /// Lets one tick pass.
    pub fn update(&mut self)
        requires
            old(self).wf(),
            !(old(self).spec_state() is Start),
        ensures
            old(self).updates_to(*final(self)),
            !(final(self).spec_state() is Start),
    {
        self.handle_keys();
        match self.poll_load_request() {
            Some(id) => {
                self.state = GameState::LoadRoom(id, false);
                return ;
            },
            None => {},
        }
        proof {
            lemma_first_load(old(self).queues().game);
        }
        self.handle_spawns();
        let ghost born = *self;
        proof {
            assert(self.dispatcher@.game =~= Seq::<Telegram>::empty());
            assert(self.dispatcher@.manager =~= Seq::<Telegram>::empty());
            assert(self.dispatcher@.general =~= Seq::<Telegram>::empty());
        }
        self.collide();
        let ghost collided = *self;
        self.level.update();
        self.tick_entities();
        let ghost ticked = *self;
        proof {
            crate::entity::manager::lemma_slot_of(self.entity_manager.entities(), PLAYER_ID);
        }
        self.update_offsets();
        proof {
            let before = *old(self);
            let (entities, fresh) = spawned(
                before.manager().entities(),
                before.manager().spec_next_id(),
                before.queues().manager,
            );
            let slot = slot_of(entities, PLAYER_ID);
            let hits = hits_among(entities[slot], entities);
            let pushed = entities.update(slot, pushed_out(entities[slot], hits));
            crate::entity::manager::lemma_slot_of(entities, PLAYER_ID);
            crate::entity::manager::lemma_pushed_out(entities[slot], hits);
            crate::entity::manager::lemma_replaced_keeps_wf(
                entities,
                slot,
                pushed_out(entities[slot], hits),
            );
            let reported = collisions_reported(
                Queues { game: Seq::empty(), manager: Seq::empty(), general: Seq::empty() },
                hits,
            );
            let answers = answered(
                Queues { general: Seq::empty(), ..reported },
                reported.general,
                pushed,
            );
            assert(born.queues() == (Queues {
                game: Seq::empty(),
                manager: Seq::empty(),
                general: Seq::empty(),
            }));
            let told = pushed.update(slot, pushed[slot].with_intent(before.wanted_intent()));
            let witness = choose|witness: Seq<AnyEntity>| #[trigger]
                all_ticked(
                    told,
                    collided.spec_level().spec_current_room(),
                    collided.queues(),
                    witness,
                    ticked.queues(),
                ) && ticked.manager().entities() == survivors(witness);
            assert(all_ticked(
                told,
                before.spec_level().spec_current_room(),
                answers,
                witness,
                self.queues(),
            ) && self.manager().entities() == survivors(witness));
        }
    }

    /// Where the view belongs for a player at `player`, in pixels.
    pub open spec fn spec_scrolled(self, player: Vec2) -> Vec2 {
        let level = self.spec_level().spec_current_room().spec_dimensions();
        Vec2 {
            x: scrolled_along(player.x as int, level.x as int, self.window().0 as int) as i32,
            y: scrolled_along(player.y as int, level.y as int, self.window().1 as int) as i32,
        }
    }

    /// Lets the view follow the player, unless the player has just run into
    /// something.
    fn update_offsets(&mut self)
        requires
            old(self).wf(),
            old(self).manager().contains(PLAYER_ID),
        ensures
            final(self).wf(),
            final(self).scroll() == if old(self).manager().entity(PLAYER_ID).model().collided {
                old(self).scroll()
            } else {
                old(self).spec_scrolled(
                    old(self).manager().entity(PLAYER_ID).model().position.spec_to_pixels(),
                )
            },
            final(self).spec_state() == old(self).spec_state(),
            final(self).keys() == old(self).keys(),
            final(self).window() == old(self).window(),
            final(self).spec_scale() == old(self).spec_scale(),
            final(self).spec_screen() == old(self).spec_screen(),
            final(self).spec_level() == old(self).spec_level(),
            final(self).manager() == old(self).manager(),
            final(self).spec_dispatcher() == old(self).spec_dispatcher(),
    {
        let player = self.entity_manager.get_entity(&PLAYER_ID);
        if player.collides() {
            return ;
        }
        let position = player.absolute_pos();
        let x = position.x;
        let y = position.y;
        let level = self.level.dimensions();
        let lvl_width = level.x;
        let lvl_height = level.y;
        let window_width = self.window_dimensions.0 as i32;
        let window_height = self.window_dimensions.1 as i32;
        let half_width = window_width / 2;
        let half_height = window_height / 2;
        let scroll_x = if x < half_width || lvl_width <= window_width {
            0
        } else if x > lvl_width - half_width {
            lvl_width - window_width
        } else {
            x - half_width
        };
        let scroll_y = if y < half_height || lvl_height <= window_height {
            0
        } else if y > lvl_height - half_height {
            lvl_height - window_height
        } else {
            y - half_height
        };
        self.offset = Vec2::new(scroll_x, scroll_y);
    }

    /// Whether `after` is what the screen shows once the level, then the
    /// entities, and last the red pixel under the mouse have been drawn.
    pub open spec fn shows(self, after: Screen) -> bool {
        let mouse = self.mouse_pixel();
        exists|ground: Screen, stage: Screen|
            {
                &&& ground.wf()
                &&& ground.same_frame(after)
                &&& forall|sx: int, sy: int|
                    0 <= sx < after.spec_width() && 0 <= sy < after.spec_height()
                        ==> #[trigger] ground.pixel(sx, sy) == self.spec_level().spec_current_room().shown_at(
                        sx + self.scroll().x,
                        sy + self.scroll().y,
                    )
                &&& #[trigger] all_drawn(self.manager().entities(), self.scroll(), ground, stage)
                &&& forall|sx: int, sy: int|
                    0 <= sx < after.spec_width() && 0 <= sy < after.spec_height()
                        ==> #[trigger] after.pixel(sx, sy) == if sx == mouse.0 && sy == mouse.1 {
                        mouse_red()
                    } else {
                        stage.pixel(sx, sy)
                    }
            }
    }

    /// The pixel of the game that the mouse is over. Left of and above the
    /// window counts as its edge.
    pub open spec fn mouse_pixel(self) -> (int, int) {
        let mouse = self.keys().mouse_pos;
        (
            (if mouse.x < 0 { 0int } else { mouse.x as int }) / (self.spec_scale() as int),
            (if mouse.y < 0 { 0int } else { mouse.y as int }) / (self.spec_scale() as int),
        )
    }

    /// Draws a frame: the level, the entities, and a red pixel under the
    /// mouse.
    pub fn render(&mut self)
        requires
            old(self).wf(),
        ensures
            final(self).wf(),
            old(self).shows(final(self).spec_screen()),
            final(self).spec_screen().spec_width() == old(self).spec_screen().spec_width(),
            final(self).spec_screen().spec_height() == old(self).spec_screen().spec_height(),
            final(self).spec_screen().spec_offset() == old(self).scroll(),
            final(self).spec_state() == old(self).spec_state(),
            final(self).keys() == old(self).keys(),
            final(self).window() == old(self).window(),
            final(self).scroll() == old(self).scroll(),
            final(self).spec_scale() == old(self).spec_scale(),
            final(self).spec_level() == old(self).spec_level(),
            final(self).manager() == old(self).manager(),
            final(self).spec_dispatcher() == old(self).spec_dispatcher(),
    {
        self.screen.clear();
        self.level.render(self.offset, &mut self.screen);
        self.entity_manager.render(&mut self.screen, self.offset);
        self.screen.render_map(self.level.map_info());
        let mouse_x: u32 = if self.keyboard.mouse_pos.x < 0 {
            0
        } else {
            self.keyboard.mouse_pos.x as u32
        };
        let mouse_y: u32 = if self.keyboard.mouse_pos.y < 0 {
            0
        } else {
            self.keyboard.mouse_pos.y as u32
        };
        self.screen.put_pixel(
            mouse_x / self.scale,
            mouse_y / self.scale,
            Color { r: 255, g: 0, b: 0, a: 255 },
        );
    }
}

/// Reports of collisions never go to the manager.
pub proof fn lemma_reports_keep_manager_queue(queues: Queues, hits: Seq<(EntityId, crate::entity::Collider)>)
    requires
        crate::entity::message::sorted_by_receiver(queues),
    ensures
        crate::entity::message::sorted_by_receiver(collisions_reported(queues, hits)),
    decreases hits.len(),
{
    if hits.len() > 0 {
        lemma_reports_keep_manager_queue(queues, hits.drop_last());
    }
}

} // verus!
