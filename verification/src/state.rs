//! Utilities for game state management: a pushdown (stack-based) state
//! machine whose states live on a stack, the top state being the active one.
//! States beneath a non-blocking state keep receiving `update` calls; states
//! beneath a blocking state are paused.

use vstd::prelude::*;

verus! {

/// Hands the caller-supplied shared game data to the states of a machine.
pub struct StateData<T> {
    /// User defined game data
    pub data: T,
}

impl<T> StateData<T> {
    /// Create a new state data
    pub fn new(data: T) -> (r: StateData<T>)
        ensures
            r.data == data,
    {
        StateData { data }
    }
}

/// Types of state transitions.
pub enum Trans<S> {
    /// Continue as normal.
    Continue,
    /// Remove the active state and resume the next state on the stack or stop
    /// if there are none.
    Pop,
    /// Pause the active state and push a new state onto the stack.
    Push(S),
    /// Remove the current state on the stack and insert a different one.
    Switch(S),
    /// Stop and remove all states and shut down the engine.
    Quit,
}

/// A trait which defines game states that can be used by the state machine.
///
/// `blocking` is the specification-level twin of `is_blocking`: the machine's
/// contracts are phrased over `blocking`, and `is_blocking` must report it.
pub trait State<T>: Sized {
    /// Whether this state shadows the states beneath it on the stack.
    open spec fn blocking(&self) -> bool {
        true
    }

    /// Reports whether this state shadows the states beneath it.
    fn is_blocking(&self) -> (b: bool)
        ensures
            b == self.blocking(),
    ;

    /// Executed when the game state begins.
    fn on_start(&mut self, data: &mut StateData<T>) {
    }

    /// Executed when the game state exits.
    fn on_stop(&mut self, data: &mut StateData<T>) {
    }

    /// Executed when a different game state is pushed onto the stack.
    fn on_pause(&mut self, data: &mut StateData<T>) {
    }

    /// Executed when the application returns to this game state once again.
    fn on_resume(&mut self, data: &mut StateData<T>) {
    }

    /// A short name for the state, for diagnostics.
    fn state_name(&self) -> (r: &'static str) {
        "State"
    }

    /// Executed on every frame immediately, as fast as the engine will allow.
    fn update(&mut self, data: &mut StateData<T>) -> Trans<Self> {
        Trans::Continue
    }
}

/// A simple stack-based state machine (pushdown automaton).
pub struct StateMachine<T, S: State<T>> {
    running: bool,
    state_stack: Vec<S>,
    _marker: core::marker::PhantomData<T>,
}

impl<T, S: State<T>> StateMachine<T, S> {
    /// The stack of states, bottom first; the last element is the active one.
    pub closed spec fn stack(&self) -> Seq<S> {
        self.state_stack@
    }

    /// Whether the machine is currently ticking.
    pub closed spec fn running(&self) -> bool {
        self.running
    }

    /// A running machine always has at least one state on its stack.
    pub open spec fn wf(&self) -> bool {
        self.running() ==> self.stack().len() > 0
    }

    /// How `pop` relates the machine before and after: the top state is gone,
    /// everything strictly below the new top is untouched, and the machine
    /// keeps running exactly when a state remains.  When the popped state was
    /// not blocking, the state beneath it is not resumed, so the new stack is
    /// exactly the old one minus its top.
    pub open spec fn popped(pre: Self, post: Self) -> bool {
        &&& post.stack().len() == pre.stack().len() - 1
        &&& forall|j: int| 0 <= j < pre.stack().len() - 2 ==> post.stack()[j] == pre.stack()[j]
        &&& post.running() == (pre.stack().len() > 1)
        &&& (!pre.stack().last().blocking() ==> post.stack() == pre.stack().drop_last())
    }

    /// How `push` relates the machine before and after: one new state on top,
    /// everything strictly below the old top is untouched, and the old top is
    /// untouched (not paused) when the pushed state is not blocking.
    pub open spec fn pushed(pre: Self, post: Self, state: S) -> bool {
        &&& post.running()
        &&& post.stack().len() == pre.stack().len() + 1
        &&& forall|j: int| 0 <= j < pre.stack().len() - 1 ==> post.stack()[j] == pre.stack()[j]
        &&& (!state.blocking() && pre.stack().len() > 0 ==> post.stack()[pre.stack().len() - 1]
            == pre.stack()[pre.stack().len() - 1])
    }

    /// How `switch` relates the machine before and after: the stack keeps its
    /// length, everything strictly below the top is untouched, and no state is
    /// resumed.
    pub open spec fn switched(pre: Self, post: Self) -> bool {
        &&& post.running()
        &&& post.stack().len() == pre.stack().len()
        &&& forall|j: int| 0 <= j < pre.stack().len() - 1 ==> post.stack()[j] == pre.stack()[j]
    }

    /// Creates a new state machine with the given initial state.
    pub fn new(initial_state: S) -> (m: StateMachine<T, S>)
        ensures
            !m.running(),
            m.wf(),
            m.stack().len() == 1,
            m.stack()[0] == initial_state,
    {
        let mut state_stack = Vec::new();
        state_stack.push(initial_state);
        StateMachine { running: false, state_stack, _marker: core::marker::PhantomData }
    }

    /// Places a state on top of the stack of a machine that is not running
    /// yet, without starting it; `start` will reach it later.
    pub fn push_state(&mut self, state: S)
        requires
            !old(self).running(),
        ensures
            !final(self).running(),
            final(self).wf(),
            final(self).stack() == old(self).stack().push(state),
    {
        self.state_stack.push(state);
    }

    /// Checks whether the state machine is running.
    pub fn is_running(&self) -> (b: bool)
        ensures
            b == self.running(),
    {
        self.running
    }

    /// Initializes the state machine: walks the stack top-down calling
    /// `on_start` on each state until one reports itself blocking (inclusive),
    /// then marks the machine running.  A machine that is already running is
    /// left untouched.
    pub fn start(&mut self, data: &mut StateData<T>)
        requires
            old(self).wf(),
            old(self).running() || old(self).stack().len() > 0,
        ensures
            final(self).wf(),
            final(self).running(),
            final(self).stack().len() == old(self).stack().len(),
            old(self).running() ==> *final(self) == *old(self) && *final(data) == *old(data),
            final(self).stack().len() > 0 && final(self).stack().last().blocking()
                ==> forall|j: int|
                0 <= j < old(self).stack().len() - 1 ==> final(self).stack()[j] == old(
                self).stack()[j],
    {
        if !self.running {
            let mut i = self.state_stack.len();
            let mut done = false;
            while i > 0 && !done
                invariant
                    i <= self.state_stack.len(),
                    self.state_stack.len() == old(self).stack().len(),
                    self.running == old(self).running(),
                    forall|j: int| 0 <= j < i ==> self.state_stack@[j] == old(self).stack()[j],
                    i < old(self).stack().len() - 1 ==> !self.state_stack@[old(
                        self,
                    ).stack().len() - 1].blocking(),
                    i < old(self).stack().len() ==> done == self.state_stack@[i as int].blocking(),
                    done ==> i < old(self).stack().len(),
                decreases i,
            {
                i = i - 1;
                let mut s = self.state_stack.remove(i);
                s.on_start(data);
                done = s.is_blocking();
                self.state_stack.insert(i, s);
            }
            self.running = true;
        }
    }

    /// Updates the currently active state immediately: walks the stack
    /// top-down calling `update` on each state until one reports itself
    /// blocking (inclusive), then applies the transition requested by the
    /// first (topmost) call.  A machine that is not running is left untouched.
    pub fn update(&mut self, data: &mut StateData<T>)
        requires
            old(self).wf(),
        ensures
            final(self).wf(),
            !old(self).running() ==> *final(self) == *old(self) && *final(data) == *old(data),
            old(self).running() ==> (final(self).running() <==> final(self).stack().len() > 0),
            final(self).stack().len() <= old(self).stack().len() + 1,
    {
        if self.running {
            let mut next: Option<Trans<S>> = None;
            let mut i = self.state_stack.len();
            let mut done = false;
            while i > 0 && !done
                invariant
                    i <= self.state_stack.len(),
                    self.state_stack.len() == old(self).stack().len(),
                    self.running == old(self).running(),
                    old(self).running(),
                decreases i,
            {
                i = i - 1;
                let mut s = self.state_stack.remove(i);
                let trans = s.update(data);
                done = s.is_blocking();
                self.state_stack.insert(i, s);
                if next.is_none() {
                    next = Some(trans);
                }
            }
            let trans = match next {
                Some(t) => t,
                None => Trans::Continue,
            };
            self.transition(trans, data);
        }
    }

    /// Performs a state transition, if requested by `update`.
    pub fn transition(&mut self, request: Trans<S>, data: &mut StateData<T>)
        requires
            old(self).wf(),
        ensures
            final(self).wf(),
            !old(self).running() ==> *final(self) == *old(self) && *final(data) == *old(data),
            old(self).running() ==> {
                &&& (request matches Trans::Continue ==> *final(self) == *old(self) && *final(data)
                    == *old(data))
                &&& (request matches Trans::Pop ==> Self::popped(*old(self), *final(self)))
                &&& (request matches Trans::Push(s) ==> Self::pushed(*old(self), *final(self), s))
                &&& (request matches Trans::Switch(s) ==> Self::switched(*old(self), *final(self)))
                &&& (request matches Trans::Quit ==> final(self).stack().len() == 0
                    && !final(self).running())
                &&& (final(self).running() <==> final(self).stack().len() > 0)
            },
    {
        if self.running {
            match request {
                Trans::Continue => (),
                Trans::Pop => self.pop(data),
                Trans::Push(state) => self.push(state, data),
                Trans::Switch(state) => self.switch(state, data),
                Trans::Quit => self.stop(data),
            }
        }
    }

    /// Removes the current state on the stack and inserts a different one.
    /// The removed state is stopped but the state beneath is not resumed.
    pub fn switch(&mut self, state: S, data: &mut StateData<T>)
        requires
            old(self).wf(),
        ensures
            final(self).wf(),
            !old(self).running() ==> *final(self) == *old(self) && *final(data) == *old(data),
            old(self).running() ==> Self::switched(*old(self), *final(self)),
            old(self).running() ==> final(self).stack().len() > 0,
    {
        if self.running {
            if let Some(mut old_state) = self.state_stack.pop() {
                old_state.on_stop(data);
            }
            let mut state = state;
            state.on_start(data);
            self.state_stack.push(state);
        }
    }

    /// Pauses the active state (when the new state is blocking) and pushes a
    /// new state onto the state stack.
    pub fn push(&mut self, state: S, data: &mut StateData<T>)
        requires
            old(self).wf(),
        ensures
            final(self).wf(),
            !old(self).running() ==> *final(self) == *old(self) && *final(data) == *old(data),
            old(self).running() ==> Self::pushed(*old(self), *final(self), state),
    {
        if self.running {
            let blocking = state.is_blocking();
            let n = self.state_stack.len();
            if n > 0 && blocking {
                let mut top = self.state_stack.remove(n - 1);
                top.on_pause(data);
                self.state_stack.insert(n - 1, top);
            }
            let mut state = state;
            state.on_start(data);
            self.state_stack.push(state);
        }
    }

    /// Stops and removes the active state and un-pauses the next state on the
    /// stack (if any); popping the last state stops the machine.
    pub fn pop(&mut self, data: &mut StateData<T>)
        requires
            old(self).wf(),
        ensures
            final(self).wf(),
            !old(self).running() ==> *final(self) == *old(self) && *final(data) == *old(data),
            old(self).running() ==> Self::popped(*old(self), *final(self)),
    {
        if self.running {
            let mut was_blocking = true;
            if let Some(mut state) = self.state_stack.pop() {
                was_blocking = state.is_blocking();
                state.on_stop(data);
            }
            let n = self.state_stack.len();
            if n > 0 {
                if was_blocking {
                    let mut top = self.state_stack.remove(n - 1);
                    top.on_resume(data);
                    self.state_stack.insert(n - 1, top);
                }
            } else {
                self.running = false;
            }
        }
    }

    /// The active state: the top of the stack.
    pub fn current(&self) -> (s: &S)
        requires
            self.stack().len() > 0,
        ensures
            *s == self.stack().last(),
    {
        &self.state_stack[self.state_stack.len() - 1]
    }

    /// Shuts the state machine down: stops and removes every state, top-down.
    pub fn stop(&mut self, data: &mut StateData<T>)
        requires
            old(self).wf(),
        ensures
            final(self).wf(),
            !old(self).running() ==> *final(self) == *old(self) && *final(data) == *old(data),
            old(self).running() ==> final(self).stack().len() == 0 && !final(self).running(),
    {
        if self.running {
            while self.state_stack.len() > 0
                invariant
                    self.running == old(self).running(),
                decreases self.state_stack.len(),
            {
                let mut state = self.state_stack.pop().unwrap();
                state.on_stop(data);
            }
            self.running = false;
        }
    }
}

} // verus!
