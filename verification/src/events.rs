//! Input events, the actions they stand for, and what the actions ask of the
//! program and of the camera control.

use vstd::prelude::*;
use crate::camera::CameraControl;

verus! {

/// The aspect of the window, as the ratio of its width to its height.
#[derive(Clone, Copy, Debug, PartialEq, Eq, Structural)]
pub struct Aspect {
    pub width: u32,
    pub height: u32,
}

/// What the user or the window asks for.
#[derive(Clone, Copy, Debug, PartialEq, Eq, Structural)]
pub enum Action {
    Exit,
    Refresh,
    SetAspect(Aspect),
    /// Rotate control clockwise ("left")
    CamRotateCw(bool),
    /// Rotate control counter-clockwise ("right")
    CamRotateCcw(bool),
    /// Rotate control north
    CamRotateN(bool),
    /// Rotate control south
    CamRotateS(bool),
    /// Shoot laser
    Shoot(bool),
}

/// What the program as a whole is to do next.
#[derive(Clone, Copy, Debug, PartialEq, Eq, Structural)]
pub enum ProgramCommand {
    Exit,
    RefreshSimulation,
}

/// The keys that mean something to the simulation.
#[derive(Clone, Copy, Debug, PartialEq, Eq, Structural)]
pub enum Key {
    Left,
    Right,
    Up,
    Down,
    R,
    Space,
    Other,
}

/// An event of the window system, reduced to what the simulation reads.
#[derive(Clone, Copy, Debug, PartialEq, Eq, Structural)]
pub enum InputEvent {
    /// The window was closed.
    Closed,
    /// A key went down or up. `key` is `None` where the window system could
    /// not name the key.
    KeyboardInput { key: Option<Key>, pressed: bool, ctrl: bool },
    /// The window was resized to this width and height.
    Resized(u32, u32),
    /// Anything else.
    Other,
}

/// What became of the global actions of one frame.
#[derive(Clone, Copy, Debug, PartialEq, Eq, Structural)]
pub struct GlobalOutcome {
    /// The command to the program, if an action gave one.
    pub command: Option<ProgramCommand>,
    /// The window's new aspect, if an action set one.
    pub aspect: Option<Aspect>,
}

/// The action that one event stands for, if any.
pub open spec fn action_of(event: InputEvent) -> Option<Action> {
    match event {
        InputEvent::Closed => Some(Action::Exit),
        InputEvent::KeyboardInput { key: Some(key), pressed, ctrl } => match key {
            Key::Left => Some(Action::CamRotateCw(pressed)),
            Key::Right => Some(Action::CamRotateCcw(pressed)),
            Key::Up => Some(Action::CamRotateN(pressed)),
            Key::Down => Some(Action::CamRotateS(pressed)),
            Key::R => if pressed && ctrl {
                Some(Action::Refresh)
            } else {
                None
            },
            Key::Space => Some(Action::Shoot(pressed)),
            Key::Other => None,
        },
        InputEvent::KeyboardInput { key: None, .. } => None,
        InputEvent::Resized(width, height) => Some(Action::SetAspect(Aspect { width, height })),
        InputEvent::Other => None,
    }
}

/// The actions that a run of events stands for, in the order of the events.
pub open spec fn actions_of(events: Seq<InputEvent>) -> Seq<Action>
    decreases events.len(),
{
    if events.len() == 0 {
        Seq::empty()
    } else {
        let before = actions_of(events.drop_last());
        match action_of(events.last()) {
            Some(action) => before.push(action),
            None => before,
        }
    }
}

/// The command that an action gives to the program, if any.
pub open spec fn command_of(action: Action) -> Option<ProgramCommand> {
    match action {
        Action::Exit => Some(ProgramCommand::Exit),
        Action::Refresh => Some(ProgramCommand::RefreshSimulation),
        _ => None,
    }
}

/// Whether an action of the run gives the command.
pub open spec fn asks_for(actions: Seq<Action>, command: ProgramCommand) -> bool {
    exists|i: int| 0 <= i < actions.len() && command_of(#[trigger] actions[i]) == Some(command)
}

/// The command that a run of actions gives to the program: to exit where
/// any of them asks for it, wherever it stands and whatever the others ask;
/// else to refresh the simulation where any of them asks for that; else
/// none.
pub open spec fn frame_command(actions: Seq<Action>) -> Option<ProgramCommand> {
    if asks_for(actions, ProgramCommand::Exit) {
        Some(ProgramCommand::Exit)
    } else if asks_for(actions, ProgramCommand::RefreshSimulation) {
        Some(ProgramCommand::RefreshSimulation)
    } else {
        None
    }
}

/// A run of actions with one more asks for a command where the run without
/// it does, or where the one more gives it.
pub proof fn lemma_asks_for_one_more(actions: Seq<Action>, n: int, command: ProgramCommand)
    requires
        0 <= n < actions.len(),
    ensures
        asks_for(actions.take(n + 1), command) <==> asks_for(actions.take(n), command)
            || command_of(actions[n]) == Some(command),
{
    let shorter = actions.take(n);
    let longer = actions.take(n + 1);
    if asks_for(shorter, command) {
        let i = choose|i: int|
            0 <= i < shorter.len() && command_of(#[trigger] shorter[i]) == Some(command);
        assert(command_of(longer[i]) == Some(command));
    }
    if command_of(actions[n]) == Some(command) {
        assert(command_of(longer[n]) == Some(command));
    }
    if asks_for(longer, command) {
        let i = choose|i: int|
            0 <= i < longer.len() && command_of(#[trigger] longer[i]) == Some(command);
        if i < n {
            assert(command_of(shorter[i]) == Some(command));
        }
    }
}

/// The aspect of the last action that sets one.
pub open spec fn last_aspect(actions: Seq<Action>) -> Option<Aspect>
    decreases actions.len(),
{
    if actions.len() == 0 {
        None
    } else {
        match actions.last() {
            Action::SetAspect(aspect) => Some(aspect),
            _ => last_aspect(actions.drop_last()),
        }
    }
}

/// The camera control after one action.
pub open spec fn steer(control: CameraControl, action: Action) -> CameraControl {
    match action {
        Action::CamRotateCw(set) => CameraControl { cw: set, ..control },
        Action::CamRotateCcw(set) => CameraControl { ccw: set, ..control },
        Action::CamRotateN(set) => CameraControl { n: set, ..control },
        Action::CamRotateS(set) => CameraControl { s: set, ..control },
        _ => control,
    }
}

/// The camera control after a run of actions, applied in order.
pub open spec fn steer_all(control: CameraControl, actions: Seq<Action>) -> CameraControl
    decreases actions.len(),
{
    if actions.len() == 0 {
        control
    } else {
        steer(steer_all(control, actions.drop_last()), actions.last())
    }
}

/// Translates one event.
pub fn translate(event: InputEvent) -> (action: Option<Action>)
    ensures
        action == action_of(event),
{
    match event {
        InputEvent::Closed => Some(Action::Exit),
        InputEvent::KeyboardInput { key, pressed, ctrl } => match key {
            Some(Key::Left) => Some(Action::CamRotateCw(pressed)),
            Some(Key::Right) => Some(Action::CamRotateCcw(pressed)),
            Some(Key::Up) => Some(Action::CamRotateN(pressed)),
            Some(Key::Down) => Some(Action::CamRotateS(pressed)),
            // Ctrl + R -> restart simulation
            Some(Key::R) => if pressed && ctrl {
                Some(Action::Refresh)
            } else {
                None
            },
            Some(Key::Space) => Some(Action::Shoot(pressed)),
            _ => None,
        },
        InputEvent::Resized(width, height) => Some(Action::SetAspect(Aspect { width, height })),
        InputEvent::Other => None,
    }
}

/// Translates the events of one frame into actions, keeping their order and
/// leaving out the events that ask for nothing.
pub fn poll_events(events: &[InputEvent]) -> (actions: Vec<Action>)
    ensures
        actions@ == actions_of(events@),
{
    let mut actions: Vec<Action> = Vec::new();
    let mut i: usize = 0;
    while i < events.len()
        invariant
            i <= events.len(),
            actions@ == actions_of(events@.take(i as int)),
        decreases events.len() - i,
    {
        proof {
            assert(events@.take(i + 1).drop_last() =~= events@.take(i as int));
        }
        match translate(events[i]) {
            Some(action) => actions.push(action),
            None => {},
        }
        i += 1;
    }
    proof {
        assert(events@.take(i as int) =~= events@);
    }
    actions
}

/// Finds what the actions of one frame ask of the program: the command
/// (an exit among the actions is never lost to a later action), and the
/// aspect of the last action that sets one.
pub fn process_global_events(actions: &[Action]) -> (outcome: GlobalOutcome)
    ensures
        outcome.command == frame_command(actions@),
        outcome.aspect == last_aspect(actions@),
{
    let mut command: Option<ProgramCommand> = None;
    let mut aspect: Option<Aspect> = None;
    let mut i: usize = 0;
    while i < actions.len()
        invariant
            i <= actions.len(),
            command == frame_command(actions@.take(i as int)),
            aspect == last_aspect(actions@.take(i as int)),
        decreases actions.len() - i,
    {
        proof {
            assert(actions@.take(i + 1).drop_last() =~= actions@.take(i as int));
            lemma_asks_for_one_more(actions@, i as int, ProgramCommand::Exit);
            lemma_asks_for_one_more(actions@, i as int, ProgramCommand::RefreshSimulation);
        }
        match actions[i] {
            Action::Exit => {
                command = Some(ProgramCommand::Exit);
            },
            Action::SetAspect(naspect) => {
                aspect = Some(naspect);
            },
            Action::Refresh => {
                // A refresh does not take back an exit
                command = match command {
                    Some(ProgramCommand::Exit) => Some(ProgramCommand::Exit),
                    _ => Some(ProgramCommand::RefreshSimulation),
                };
            },
            _ => {},
        }
        i += 1;
    }
    proof {
        assert(actions@.take(i as int) =~= actions@);
    }
    GlobalOutcome { command, aspect }
}

/// Applies the camera actions of one frame to the control, in order.
pub fn process_camera_events(control: &mut CameraControl, actions: &[Action])
    ensures
        *final(control) == steer_all(*old(control), actions@),
{
    let mut i: usize = 0;
    while i < actions.len()
        invariant
            i <= actions.len(),
            *control == steer_all(*old(control), actions@.take(i as int)),
        decreases actions.len() - i,
    {
        proof {
            assert(actions@.take(i + 1).drop_last() =~= actions@.take(i as int));
        }
        match actions[i] {
            Action::CamRotateCw(set) => control.cw = set,
            Action::CamRotateCcw(set) => control.ccw = set,
            Action::CamRotateN(set) => control.n = set,
            Action::CamRotateS(set) => control.s = set,
            _ => {},
        }
        i += 1;
    }
    proof {
        assert(actions@.take(i as int) =~= actions@);
    }
}

} // verus!
