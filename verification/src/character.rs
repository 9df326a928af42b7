//! A controllable character: the identity of its entity on the map, its
//! named animation frame lists, which way it faces, and a controller that
//! drives its behaviour with a pushdown state machine.

use vstd::prelude::*;

use std::collections::HashMap;

use crate::common::Facing;
use crate::entity::Entity;
use crate::input::InputState;
use crate::state::{State, StateMachine};

verus! {

/// A character driven by the state machine.
pub struct Character {
    /// The id of this character's entity in the map's occupancy index.
    pub entity_id: u64,
    /// Frame lists by animation name.
    pub anims: HashMap<String, Vec<usize>>,
    /// Which way the character faces.
    pub facing: Facing,
}

/// The owned per-character bundle that a character's states operate on each
/// tick.  The map stays with the host loop, which consults and updates it
/// around the machine's tick.
pub struct CharacterData {
    pub character: Character,
    pub entity: Entity,
    pub input: InputState,
}

/// Drives one character's behaviour with its own pushdown state machine.
pub struct CharacterController<S: State<CharacterData>> {
    pub entity_id: u64,
    pub state_machine: StateMachine<CharacterData, S>,
}

impl<S: State<CharacterData>> CharacterController<S> {
    /// Creates a controller for the character's entity, with the given
    /// initial state on the machine's stack.
    pub fn new(character: Character, initial_state: S) -> (r: CharacterController<S>)
        ensures
            r.entity_id == character.entity_id,
            !r.state_machine.running(),
            r.state_machine.wf(),
            r.state_machine.stack().len() == 1,
            r.state_machine.stack()[0] == initial_state,
    {
        CharacterController {
            entity_id: character.entity_id,
            state_machine: StateMachine::new(initial_state),
        }
    }
}

} // verus!
