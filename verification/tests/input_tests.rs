use tilecore::common::Point;
use tilecore::input::{InputState, Key};

#[test]
fn default_is_idle() {
    let s = InputState::default();
    assert_eq!(s.axis, Point { x: 0, y: 0 });
    assert!(!s.fire);
    assert!(s.just_pressed.is_none());
    assert!(s.just_pressed_axis.is_none());
}

#[test]
fn arrows_move_the_axis() {
    let mut s = InputState::default();
    s.key_down_event(Key::Up, false);
    assert_eq!(s.axis, Point { x: 0, y: -1 });
    assert_eq!(s.just_pressed_axis, Some(Point { x: 0, y: -1 }));
    s.key_down_event(Key::Right, false);
    assert_eq!(s.axis, Point { x: 1, y: -1 });
    s.key_up_event(Key::Up, false);
    assert_eq!(s.axis, Point { x: 1, y: 0 });
    s.key_up_event(Key::Right, false);
    assert_eq!(s.axis, Point { x: 0, y: 0 });
}

#[test]
fn repeats_are_ignored() {
    let mut s = InputState::default();
    s.key_down_event(Key::Left, true);
    assert_eq!(s.axis, Point { x: 0, y: 0 });
    assert!(s.just_pressed_axis.is_none());
}

#[test]
fn unchanged_axis_is_not_just_pressed() {
    let mut s = InputState::default();
    s.key_down_event(Key::Left, false);
    s.update();
    assert!(s.just_pressed_axis.is_none());
    // pressing left again leaves the axis as it is: no new just-press
    s.key_down_event(Key::Left, false);
    assert!(s.just_pressed_axis.is_none());
    assert_eq!(s.axis, Point { x: -1, y: 0 });
}

#[test]
fn space_fires() {
    let mut s = InputState::default();
    s.key_down_event(Key::Space, false);
    assert!(s.fire);
    s.key_up_event(Key::Space, false);
    assert!(!s.fire);
}

#[test]
fn other_keys_do_nothing() {
    let mut s = InputState::default();
    s.key_down_event(Key::Other, false);
    assert_eq!(s, InputState::default());
}

#[test]
fn update_clears_the_frame_markers() {
    let mut s = InputState::default();
    s.key_down_event(Key::Down, false);
    assert!(s.just_pressed_axis.is_some());
    s.update();
    assert!(s.just_pressed_axis.is_none());
    assert_eq!(s.axis, Point { x: 0, y: 1 });
}
