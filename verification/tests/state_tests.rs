use tilecore::state::{State, StateData, StateMachine, Trans};

enum DriveState {
    Counting(u8),
    Popper,
}

impl State<()> for DriveState {
    fn is_blocking(&self) -> bool {
        true
    }
    fn update(&mut self, _data: &mut StateData<()>) -> Trans<Self> {
        match self {
            DriveState::Counting(n) => {
                if *n > 0 {
                    *n -= 1;
                    Trans::Continue
                } else {
                    Trans::Switch(DriveState::Popper)
                }
            }
            DriveState::Popper => Trans::Pop,
        }
    }
}

#[test]
fn switch_pop() {
    let mut sm: StateMachine<(), DriveState> = StateMachine::new(DriveState::Counting(7));
    let mut data = StateData::new(());
    sm.start(&mut data);

    for _ in 0..8 {
        sm.update(&mut data);
        assert!(sm.is_running());
    }

    sm.update(&mut data);
    assert!(!sm.is_running());
}

type Log = Vec<&'static str>;

enum StackState {
    A,
    B(u8),
}

impl State<Log> for StackState {
    fn is_blocking(&self) -> bool {
        true
    }
    fn on_start(&mut self, data: &mut StateData<Log>) {
        data.data.push(match self {
            StackState::A => "A:start",
            StackState::B(_) => "B:start",
        });
    }
    fn on_stop(&mut self, data: &mut StateData<Log>) {
        data.data.push(match self {
            StackState::A => "A:stop",
            StackState::B(_) => "B:stop",
        });
    }
    fn on_pause(&mut self, data: &mut StateData<Log>) {
        data.data.push(match self {
            StackState::A => "A:pause",
            StackState::B(_) => "B:pause",
        });
    }
    fn on_resume(&mut self, data: &mut StateData<Log>) {
        data.data.push(match self {
            StackState::A => "A:resume",
            StackState::B(_) => "B:resume",
        });
    }
    fn update(&mut self, data: &mut StateData<Log>) -> Trans<Self> {
        match self {
            StackState::A => {
                data.data.push("A:update");
                Trans::Continue
            }
            StackState::B(n) => {
                data.data.push("B:update");
                if *n == 0 {
                    Trans::Pop
                } else {
                    *n -= 1;
                    Trans::Continue
                }
            }
        }
    }
}

#[test]
fn stack_scenario() {
    // A pushed first, then B on top; both blocking.
    let mut sm: StateMachine<Log, StackState> = StateMachine::new(StackState::A);
    sm.push_state(StackState::B(1));
    let mut data = StateData::new(Vec::new());

    // start scans top-down and stops at the first blocking state: only B.
    sm.start(&mut data);
    assert_eq!(data.data, vec!["B:start"]);

    // ticks drive only B until it pops.
    sm.update(&mut data);
    assert_eq!(data.data, vec!["B:start", "B:update"]);
    sm.update(&mut data);
    assert_eq!(
        data.data,
        vec!["B:start", "B:update", "B:update", "B:stop", "A:resume"]
    );

    // after the pop, A drives.
    sm.update(&mut data);
    assert_eq!(data.data.last(), Some(&"A:update"));
    assert!(sm.is_running());
}

enum SwitchState {
    Base,
    X,
    Y,
}

impl State<Log> for SwitchState {
    fn is_blocking(&self) -> bool {
        true
    }
    fn on_start(&mut self, data: &mut StateData<Log>) {
        data.data.push(match self {
            SwitchState::Base => "Base:start",
            SwitchState::X => "X:start",
            SwitchState::Y => "Y:start",
        });
    }
    fn on_stop(&mut self, data: &mut StateData<Log>) {
        data.data.push(match self {
            SwitchState::Base => "Base:stop",
            SwitchState::X => "X:stop",
            SwitchState::Y => "Y:stop",
        });
    }
    fn on_resume(&mut self, data: &mut StateData<Log>) {
        data.data.push(match self {
            SwitchState::Base => "Base:resume",
            SwitchState::X => "X:resume",
            SwitchState::Y => "Y:resume",
        });
    }
    fn update(&mut self, data: &mut StateData<Log>) -> Trans<Self> {
        match self {
            SwitchState::Base => {
                data.data.push("Base:update");
                Trans::Continue
            }
            SwitchState::X => {
                data.data.push("X:update");
                Trans::Switch(SwitchState::Y)
            }
            SwitchState::Y => {
                data.data.push("Y:update");
                Trans::Continue
            }
        }
    }
}

#[test]
fn switch_does_not_resume_below() {
    let mut sm: StateMachine<Log, SwitchState> = StateMachine::new(SwitchState::Base);
    sm.push_state(SwitchState::X);
    let mut data = StateData::new(Vec::new());

    sm.start(&mut data);
    assert_eq!(data.data, vec!["X:start"]);

    // X requests a switch: X is stopped, Y is started, and unlike a pop the
    // state beneath gets no resume call.
    sm.update(&mut data);
    assert_eq!(data.data, vec!["X:start", "X:update", "X:stop", "Y:start"]);
    assert!(!data.data.contains(&"Base:resume"));

    sm.update(&mut data);
    assert_eq!(data.data.last(), Some(&"Y:update"));
    assert!(sm.is_running());
}

#[test]
fn current_and_default_name() {
    let sm: StateMachine<(), DriveState> = StateMachine::new(DriveState::Popper);
    assert_eq!(sm.current().state_name(), "State");
}

#[test]
fn update_before_start_is_a_noop() {
    let mut sm: StateMachine<Log, StackState> = StateMachine::new(StackState::A);
    let mut data = StateData::new(Vec::new());
    sm.update(&mut data);
    assert!(!sm.is_running());
    assert!(data.data.is_empty());
}

#[test]
fn push_pauses_the_state_below() {
    let mut sm: StateMachine<Log, StackState> = StateMachine::new(StackState::A);
    let mut data = StateData::new(Vec::new());
    sm.start(&mut data);
    assert_eq!(data.data, vec!["A:start"]);
    sm.transition(Trans::Push(StackState::B(0)), &mut data);
    assert_eq!(data.data, vec!["A:start", "A:pause", "B:start"]);
    // the pushed state is now the active one
    sm.update(&mut data);
    assert_eq!(
        data.data,
        vec!["A:start", "A:pause", "B:start", "B:update", "B:stop", "A:resume"]
    );
}

#[test]
fn quit_stops_everything_top_down() {
    let mut sm: StateMachine<Log, StackState> = StateMachine::new(StackState::A);
    let mut data = StateData::new(Vec::new());
    sm.start(&mut data);
    sm.push(StackState::B(3), &mut data);
    data.data.clear();
    sm.transition(Trans::Quit, &mut data);
    assert_eq!(data.data, vec!["B:stop", "A:stop"]);
    assert!(!sm.is_running());
}

enum OverlayState {
    Bottom,
    Overlay,
}

impl State<Log> for OverlayState {
    fn is_blocking(&self) -> bool {
        match self {
            OverlayState::Bottom => true,
            OverlayState::Overlay => false,
        }
    }
    fn on_start(&mut self, data: &mut StateData<Log>) {
        data.data.push(match self {
            OverlayState::Bottom => "Bottom:start",
            OverlayState::Overlay => "Overlay:start",
        });
    }
    fn update(&mut self, data: &mut StateData<Log>) -> Trans<Self> {
        data.data.push(match self {
            OverlayState::Bottom => "Bottom:update",
            OverlayState::Overlay => "Overlay:update",
        });
        Trans::Continue
    }
}

#[test]
fn non_blocking_overlay_passes_calls_down() {
    let mut sm: StateMachine<Log, OverlayState> = StateMachine::new(OverlayState::Bottom);
    sm.push_state(OverlayState::Overlay);
    let mut data = StateData::new(Vec::new());

    // start scans past the non-blocking overlay and reaches the bottom state
    sm.start(&mut data);
    assert_eq!(data.data, vec!["Overlay:start", "Bottom:start"]);

    // both states receive update calls each tick, top first
    sm.update(&mut data);
    assert_eq!(
        data.data,
        vec!["Overlay:start", "Bottom:start", "Overlay:update", "Bottom:update"]
    );
}
