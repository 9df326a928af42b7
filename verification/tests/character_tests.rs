use std::collections::HashMap;

use tilecore::character::{Character, CharacterController, CharacterData};
use tilecore::common::{Facing, Point};
use tilecore::entity::Entity;
use tilecore::input::InputState;
use tilecore::state::{State, StateData, Trans};

fn sample_character() -> Character {
    let mut anims = HashMap::new();
    anims.insert(String::from("walk_down"), vec![0, 1, 2, 1]);
    Character {
        entity_id: 7,
        anims,
        facing: Facing::Down,
    }
}

// A behaviour that turns the character to face where the input points.
struct FaceInput;

impl State<CharacterData> for FaceInput {
    fn is_blocking(&self) -> bool {
        true
    }
    fn update(&mut self, data: &mut StateData<CharacterData>) -> Trans<Self> {
        let axis = data.data.input.axis;
        if axis.y > 0 {
            data.data.character.facing = Facing::Down;
        } else if axis.y < 0 {
            data.data.character.facing = Facing::Up;
        } else if axis.x < 0 {
            data.data.character.facing = Facing::Left;
        } else if axis.x > 0 {
            data.data.character.facing = Facing::Right;
        }
        data.data.entity.set_frame(1);
        Trans::Continue
    }
}

#[test]
fn controller_carries_the_entity_id() {
    let controller = CharacterController::new(sample_character(), FaceInput);
    assert_eq!(controller.entity_id, 7);
    assert!(!controller.state_machine.is_running());
}

#[test]
fn controller_drives_the_character() {
    let mut controller = CharacterController::new(sample_character(), FaceInput);
    let mut input = InputState::default();
    input.axis = Point { x: -1, y: 0 };
    let mut data = StateData::new(CharacterData {
        character: sample_character(),
        entity: Entity::new(7, Point { x: 8, y: 16 }),
        input,
    });

    controller.state_machine.start(&mut data);
    assert!(controller.state_machine.is_running());
    controller.state_machine.update(&mut data);
    assert_eq!(data.data.character.facing, Facing::Left);
    assert_eq!(data.data.entity.frame, 1);
}
