use tilecore::tween::{ease_in_quad, Tween};

// Values are in thousandths, times in ticks.
fn linear(t: i64, b: i64, c: i64, d: i64) -> i64 {
    b + c * t / d
}

#[test]
fn linear_scenario() {
    // From 0.0 to 1.0 over 0.2 s, in thousandths and milliseconds.
    let mut tw = Tween::new(0, 1000, 200);
    tw.update(100, linear);
    assert_eq!(tw.value(), 500);
    assert!(!tw.is_finished());

    // cumulative elapsed 0.25 s: past the duration, clamped to the finish.
    tw.update(150, linear);
    assert_eq!(tw.value(), 1000);
    assert!(tw.is_finished());
}

#[test]
fn new_starts_at_start() {
    let tw = Tween::new(300, 1000, 200);
    assert_eq!(tw.value(), 300);
    assert_eq!(tw.finish_value(), 1000);
    assert!(!tw.is_finished());
}

#[test]
fn ease_in_quad_values() {
    // half the time gives a quarter of the distance
    assert_eq!(ease_in_quad(100, 0, 1000, 200), 250);
    // full time gives the full distance
    assert_eq!(ease_in_quad(200, 0, 1000, 200), 1000);
    // zero time gives the start
    assert_eq!(ease_in_quad(0, 300, 1000, 200), 300);
    // negative distances ease downwards
    assert_eq!(ease_in_quad(100, 1000, -1000, 200), 750);
}

#[test]
fn quad_scenario() {
    let mut tw = Tween::new(0, 1000, 200);
    tw.update(100, ease_in_quad);
    assert_eq!(tw.value(), 250);
    tw.update(100, ease_in_quad);
    assert_eq!(tw.value(), 1000);
    assert!(!tw.is_finished());
    tw.update(1, ease_in_quad);
    assert!(tw.is_finished());
}

#[test]
fn finished_tween_never_moves() {
    let mut tw = Tween::new(0, 1000, 200);
    tw.update(201, linear);
    assert!(tw.is_finished());
    assert_eq!(tw.value(), 1000);
    for _ in 0..5 {
        tw.update(50, linear);
        assert_eq!(tw.value(), 1000);
        assert!(tw.is_finished());
    }
}
