//! The per-tick input state the simulation consumes: a discretised axis
//! vector, a fire flag, and what was just pressed this frame.

use vstd::prelude::*;

use crate::common::Point;

verus! {

/// The keys the input state reacts to.
#[derive(Clone, Copy, PartialEq, Eq, Structural, Debug)]
pub enum Key {
    Up,
    Down,
    Left,
    Right,
    Space,
    /// Any key the input state ignores.
    Other,
}

/// The input snapshot handed to the simulation each tick.  The axis is a
/// direction vector whose components are -1, 0 or 1.
#[derive(Clone, Copy, PartialEq, Eq, Structural, Debug)]
pub struct InputState {
    /// The key pressed this frame, if any; cleared every tick.
    pub just_pressed: Option<Key>,
    /// The axis value set this frame, if it changed; cleared every tick.
    pub just_pressed_axis: Option<Point>,
    pub axis: Point,
    pub fire: bool,
}

impl Default for InputState {
    /// The idle input state: no axis, nothing pressed.
    fn default() -> (r: InputState)
        ensures
            r == (InputState {
                just_pressed: None,
                just_pressed_axis: None,
                axis: Point { x: 0, y: 0 },
                fire: false,
            }),
    {
        InputState {
            just_pressed: None,
            just_pressed_axis: None,
            axis: Point { x: 0, y: 0 },
            fire: false,
        }
    }
}

impl InputState {
    /// The axis after a key goes down.
    pub open spec fn spec_axis_down(axis: Point, keycode: Key) -> Point {
        match keycode {
            Key::Up => Point { y: -1i64, ..axis },
            Key::Down => Point { y: 1i64, ..axis },
            Key::Left => Point { x: -1i64, ..axis },
            Key::Right => Point { x: 1i64, ..axis },
            _ => axis,
        }
    }

    /// The axis after a key comes up.
    pub open spec fn spec_axis_up(axis: Point, keycode: Key) -> Point {
        match keycode {
            Key::Up => Point { y: 0i64, ..axis },
            Key::Down => Point { y: 0i64, ..axis },
            Key::Left => Point { x: 0i64, ..axis },
            Key::Right => Point { x: 0i64, ..axis },
            _ => axis,
        }
    }

    /// Clears the just-pressed markers at the start of a tick.
    pub fn update(&mut self)
        ensures
            *final(self) == (InputState {
                just_pressed: None,
                just_pressed_axis: None,
                ..*old(self)
            }),
    {
        self.just_pressed = None;
        self.just_pressed_axis = None;
    }

    /// Applies a key-down event: arrow keys set the axis, space sets fire,
    /// and a changed axis is recorded as just pressed.  Key repeats are
    /// ignored.
    pub fn key_down_event(&mut self, keycode: Key, repeat: bool)
        ensures
            repeat ==> *final(self) == *old(self),
            !repeat ==> *final(self) == (InputState {
                axis: Self::spec_axis_down(old(self).axis, keycode),
                fire: old(self).fire || keycode is Space,
                just_pressed_axis: (if Self::spec_axis_down(old(self).axis, keycode) != old(
                    self,
                ).axis {
                    Some(Self::spec_axis_down(old(self).axis, keycode))
                } else {
                    old(self).just_pressed_axis
                }),
                ..*old(self)
            }),
    {
        if repeat {
            return ;
        }
        let current = self.axis;
        match keycode {
            Key::Up => {
                self.axis.y = -1;
            },
            Key::Down => {
                self.axis.y = 1;
            },
            Key::Left => {
                self.axis.x = -1;
            },
            Key::Right => {
                self.axis.x = 1;
            },
            Key::Space => {
                self.fire = true;
            },
            Key::Other => (),
        }
        if !(current.x == self.axis.x && current.y == self.axis.y) {
            self.just_pressed_axis = Some(self.axis);
        }
    }

    /// Applies a key-up event: arrow keys zero their axis component, space
    /// clears fire.  Key repeats are ignored.
    pub fn key_up_event(&mut self, keycode: Key, repeat: bool)
        ensures
            repeat ==> *final(self) == *old(self),
            !repeat ==> *final(self) == (InputState {
                axis: Self::spec_axis_up(old(self).axis, keycode),
                fire: old(self).fire && !(keycode is Space),
                ..*old(self)
            }),
    {
        if repeat {
            return ;
        }
        match keycode {
            Key::Up => {
                self.axis.y = 0;
            },
            Key::Down => {
                self.axis.y = 0;
            },
            Key::Left => {
                self.axis.x = 0;
            },
            Key::Right => {
                self.axis.x = 0;
            },
            Key::Space => {
                self.fire = false;
            },
            Key::Other => (),
        }
    }
}

} // verus!
