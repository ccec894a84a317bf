//! A small finite-state machine that drives an entity.

use vstd::prelude::*;
use std::marker::PhantomData;
use vstd::std_specs::cmp::PartialEqSpec;
use crate::entity::{MessageDispatcher, Queues};

verus! {

/// An owner and the queues of the dispatcher, as a state finds or leaves
/// them.
pub struct Scene<E> {
    pub owner: E,
    pub queues: Queues,
}

/// One state of an owner. A state holds no data that changes: what it does
/// stands in `enter`, `execute` and `exit`, and what changes stands in the
/// owner.
pub trait State<E>: Sized {
    /// What must hold of an owner for a state to work on it. Every state
    /// keeps it.
    spec fn fit(owner: E) -> bool;

    /// Whether entering the state can turn `before` into `after`.
    spec fn entered(&self, before: Scene<E>, after: Scene<E>) -> bool;

    /// Whether a tick in the state can turn `before` into `after`.
    spec fn executed(&self, before: Scene<E>, after: Scene<E>) -> bool;

    /// Whether leaving the state can turn `before` into `after`.
    spec fn exited(&self, before: Scene<E>, after: Scene<E>) -> bool;

    fn enter(&self, owner: &mut E, dispatcher: &mut MessageDispatcher)
        requires
            Self::fit(*old(owner)),
            old(dispatcher).wf(),
        ensures
            Self::fit(*final(owner)),
            final(dispatcher).wf(),
            self.entered(
                Scene { owner: *old(owner), queues: old(dispatcher)@ },
                Scene { owner: *final(owner), queues: final(dispatcher)@ },
            ),
    ;

    fn execute(&self, owner: &mut E, dispatcher: &mut MessageDispatcher)
        requires
            Self::fit(*old(owner)),
            old(dispatcher).wf(),
        ensures
            Self::fit(*final(owner)),
            final(dispatcher).wf(),
            self.executed(
                Scene { owner: *old(owner), queues: old(dispatcher)@ },
                Scene { owner: *final(owner), queues: final(dispatcher)@ },
            ),
    ;

    fn exit(&self, owner: &mut E, dispatcher: &mut MessageDispatcher)
        requires
            Self::fit(*old(owner)),
            old(dispatcher).wf(),
        ensures
            Self::fit(*final(owner)),
            final(dispatcher).wf(),
            self.exited(
                Scene { owner: *old(owner), queues: old(dispatcher)@ },
                Scene { owner: *final(owner), queues: final(dispatcher)@ },
            ),
    ;
}

/// One change of state: the outgoing state is left once, then the incoming
/// state is entered once, and nothing else happens in between.
pub open spec fn changed<E, S: State<E>>(
    outgoing: S,
    incoming: S,
    before: Scene<E>,
    after: Scene<E>,
) -> bool {
    exists|between: Scene<E>| #[trigger]
        outgoing.exited(before, between) && incoming.entered(between, after)
}

/// One tick: the global state, if there is one, runs once, then the current
/// state runs once.
pub open spec fn ticked<E, S: State<E>>(
    global: Option<S>,
    current: S,
    before: Scene<E>,
    after: Scene<E>,
) -> bool {
    match global {
        Some(state) => exists|between: Scene<E>| #[trigger]
            state.executed(before, between) && current.executed(between, after),
        None => current.executed(before, after),
    }
}

pub struct StateMachine<E, S: State<E> + Clone + Copy + Eq + PartialEq> {
    global_state: Option<S>,
    prev_state: S,
    current_state: S,
    phantom: PhantomData<E>,
}

impl<E, S: State<E> + Clone + Copy + Eq + PartialEq> StateMachine<E, S> {
    /// The state that runs on every tick, whatever the current state is.
    pub closed spec fn global(self) -> Option<S> {
        self.global_state
    }

    pub closed spec fn current(self) -> S {
        self.current_state
    }

    pub closed spec fn previous(self) -> S {
        self.prev_state
    }

    /// A machine in `state`, which also counts as the state before.
    pub fn new(global_state: Option<S>, state: S) -> (machine: Self)
        ensures
            machine.global() == global_state,
            machine.current() == state,
            machine.previous() == state,
    {
        Self { global_state, prev_state: state, current_state: state, phantom: PhantomData }
    }

    /// Runs the global state, if there is one, and then the current state.
    pub fn update(&self, owner: &mut E, dispatcher: &mut MessageDispatcher)
        requires
            S::fit(*old(owner)),
            old(dispatcher).wf(),
        ensures
            S::fit(*final(owner)),
            final(dispatcher).wf(),
            ticked(
                self.global(),
                self.current(),
                Scene { owner: *old(owner), queues: old(dispatcher)@ },
                Scene { owner: *final(owner), queues: final(dispatcher)@ },
            ),
    {
        let ghost before = Scene { owner: *owner, queues: dispatcher@ };
        if let Some(state) = self.global_state.as_ref() {
            state.execute(owner, dispatcher);
        }
        let ghost between = Scene { owner: *owner, queues: dispatcher@ };
        self.current_state.execute(owner, dispatcher);
        proof {
            let after = Scene { owner: *owner, queues: dispatcher@ };
            if let Some(state) = self.global_state {
                assert(state.executed(before, between) && self.current_state.executed(
                    between,
                    after,
                ));
            }
        }
    }

    /// Leaves the current state, makes `state` the current one and the one
    /// that was current the previous one, and enters `state`.
    pub fn change_state(&mut self, owner: &mut E, state: S, dispatcher: &mut MessageDispatcher)
        requires
            S::fit(*old(owner)),
            old(dispatcher).wf(),
        ensures
            S::fit(*final(owner)),
            final(dispatcher).wf(),
            final(self).global() == old(self).global(),
            final(self).previous() == old(self).current(),
            final(self).current() == state,
            changed(
                old(self).current(),
                state,
                Scene { owner: *old(owner), queues: old(dispatcher)@ },
                Scene { owner: *final(owner), queues: final(dispatcher)@ },
            ),
    {
        let ghost before = Scene { owner: *owner, queues: dispatcher@ };
        self.current_state.exit(owner, dispatcher);
        let ghost between = Scene { owner: *owner, queues: dispatcher@ };
        self.prev_state = self.current_state;
        self.current_state = state;
        self.current_state.enter(owner, dispatcher);
        proof {
            let after = Scene { owner: *owner, queues: dispatcher@ };
            assert(old(self).current().exited(before, between) && state.entered(between, after));
        }
    }

    /// Changes back to the state before the current one.
    pub fn revert_to_prev_state(&mut self, owner: &mut E, dispatcher: &mut MessageDispatcher)
        requires
            S::fit(*old(owner)),
            old(dispatcher).wf(),
        ensures
            S::fit(*final(owner)),
            final(dispatcher).wf(),
            final(self).global() == old(self).global(),
            final(self).previous() == old(self).current(),
            final(self).current() == old(self).previous(),
            changed(
                old(self).current(),
                old(self).previous(),
                Scene { owner: *old(owner), queues: old(dispatcher)@ },
                Scene { owner: *final(owner), queues: final(dispatcher)@ },
            ),
    {
        let previous = self.prev_state;
        self.change_state(owner, previous, dispatcher)
    }

    /// Whether `state` is the current state, by the `==` of the states.
    pub fn is_in_state(&self, state: &S) -> (is_in: bool)
        ensures
            S::obeys_eq_spec() ==> is_in == self.current().eq_spec(state),
    {
        self.current_state == *state
    }
}

} // verus!
