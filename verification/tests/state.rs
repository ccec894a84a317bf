use atoma::entity::state::{Scene, State, StateMachine};
use atoma::entity::MessageDispatcher;

/// Writes down what the states do to it.
struct Log {
    events: Vec<&'static str>,
}

#[derive(Clone, Copy, PartialEq, Eq, Debug)]
enum Mood {
    Calm,
    Angry,
    Watchful,
}

impl Mood {
    fn name(&self) -> &'static str {
        match self {
            Mood::Calm => "calm",
            Mood::Angry => "angry",
            Mood::Watchful => "watchful",
        }
    }
}

impl State<Log> for Mood {
    // what the contracts of the states say is of no account when they run
    fn fit(_owner: Log) -> bool {
        true
    }

    fn entered(&self, _before: Scene<Log>, _after: Scene<Log>) -> bool {
        true
    }

    fn executed(&self, _before: Scene<Log>, _after: Scene<Log>) -> bool {
        true
    }

    fn exited(&self, _before: Scene<Log>, _after: Scene<Log>) -> bool {
        true
    }

    fn enter(&self, owner: &mut Log, _dispatcher: &mut MessageDispatcher) {
        owner.events.push("enter");
        owner.events.push(self.name());
    }

    fn execute(&self, owner: &mut Log, _dispatcher: &mut MessageDispatcher) {
        owner.events.push("execute");
        owner.events.push(self.name());
    }

    fn exit(&self, owner: &mut Log, _dispatcher: &mut MessageDispatcher) {
        owner.events.push("exit");
        owner.events.push(self.name());
    }
}

#[test]
fn change_of_state_leaves_once_and_enters_once() {
    let mut log = Log { events: Vec::new() };
    let mut dispatcher = MessageDispatcher::new();
    let mut machine = StateMachine::new(None, Mood::Calm);
    assert!(machine.is_in_state(&Mood::Calm));
    machine.change_state(&mut log, Mood::Angry, &mut dispatcher);
    assert_eq!(log.events, vec!["exit", "calm", "enter", "angry"]);
    assert!(machine.is_in_state(&Mood::Angry));
    assert!(!machine.is_in_state(&Mood::Calm));
}

#[test]
fn reverting_goes_back_to_the_state_before() {
    let mut log = Log { events: Vec::new() };
    let mut dispatcher = MessageDispatcher::new();
    let mut machine = StateMachine::new(None, Mood::Calm);
    machine.change_state(&mut log, Mood::Angry, &mut dispatcher);
    log.events.clear();
    machine.revert_to_prev_state(&mut log, &mut dispatcher);
    assert_eq!(log.events, vec!["exit", "angry", "enter", "calm"]);
    assert!(machine.is_in_state(&Mood::Calm));
    log.events.clear();
    machine.revert_to_prev_state(&mut log, &mut dispatcher);
    assert_eq!(log.events, vec!["exit", "calm", "enter", "angry"]);
}

#[test]
fn global_state_runs_before_the_current_state() {
    let mut log = Log { events: Vec::new() };
    let mut dispatcher = MessageDispatcher::new();
    let machine = StateMachine::new(Some(Mood::Watchful), Mood::Calm);
    machine.update(&mut log, &mut dispatcher);
    assert_eq!(log.events, vec!["execute", "watchful", "execute", "calm"]);

    let mut log = Log { events: Vec::new() };
    let machine = StateMachine::new(None, Mood::Calm);
    machine.update(&mut log, &mut dispatcher);
    assert_eq!(log.events, vec!["execute", "calm"]);
}
