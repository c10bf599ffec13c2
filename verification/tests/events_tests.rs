use planet_sim::camera::{CameraControl, Steering};
use planet_sim::events::{
    poll_events, process_camera_events, process_global_events, translate, Action, Aspect,
    GlobalOutcome, InputEvent, Key, ProgramCommand,
};
use planet_sim::simulation::Simulation;

fn key(key: Key, pressed: bool, ctrl: bool) -> InputEvent {
    InputEvent::KeyboardInput { key: Some(key), pressed, ctrl }
}

fn control(cw: bool, ccw: bool, n: bool, s: bool) -> CameraControl {
    CameraControl { cw, ccw, n, s }
}

#[test]
fn translate_window_events() {
    assert_eq!(translate(InputEvent::Closed), Some(Action::Exit));
    assert_eq!(
        translate(InputEvent::Resized(1024, 768)),
        Some(Action::SetAspect(Aspect { width: 1024, height: 768 }))
    );
    assert_eq!(
        translate(InputEvent::Resized(0, 0)),
        Some(Action::SetAspect(Aspect { width: 0, height: 0 }))
    );
    assert_eq!(translate(InputEvent::Other), None);
}

#[test]
fn translate_keys() {
    for &pressed in [true, false].iter() {
        for &ctrl in [true, false].iter() {
            assert_eq!(translate(key(Key::Left, pressed, ctrl)), Some(Action::CamRotateCw(pressed)));
            assert_eq!(
                translate(key(Key::Right, pressed, ctrl)),
                Some(Action::CamRotateCcw(pressed))
            );
            assert_eq!(translate(key(Key::Up, pressed, ctrl)), Some(Action::CamRotateN(pressed)));
            assert_eq!(translate(key(Key::Down, pressed, ctrl)), Some(Action::CamRotateS(pressed)));
            assert_eq!(translate(key(Key::Space, pressed, ctrl)), Some(Action::Shoot(pressed)));
            assert_eq!(translate(key(Key::Other, pressed, ctrl)), None);
            assert_eq!(
                translate(InputEvent::KeyboardInput { key: None, pressed, ctrl }),
                None
            );
        }
    }
}

#[test]
fn translate_refresh_needs_ctrl_and_a_press() {
    assert_eq!(translate(key(Key::R, true, true)), Some(Action::Refresh));
    assert_eq!(translate(key(Key::R, true, false)), None);
    assert_eq!(translate(key(Key::R, false, true)), None);
    assert_eq!(translate(key(Key::R, false, false)), None);
}

#[test]
fn poll_events_keeps_the_order_and_drops_the_rest() {
    let events = [
        InputEvent::Other,
        key(Key::Left, true, false),
        key(Key::Other, true, false),
        InputEvent::Resized(4, 3),
        key(Key::R, true, false),
        key(Key::Space, true, false),
        key(Key::Left, false, false),
        InputEvent::Closed,
        InputEvent::Other,
    ];
    assert_eq!(
        poll_events(&events),
        vec![
            Action::CamRotateCw(true),
            Action::SetAspect(Aspect { width: 4, height: 3 }),
            Action::Shoot(true),
            Action::CamRotateCw(false),
            Action::Exit,
        ]
    );
}

#[test]
fn poll_events_of_nothing() {
    assert_eq!(poll_events(&[]), vec![]);
    assert_eq!(poll_events(&[InputEvent::Other, InputEvent::Other]), vec![]);
}

#[test]
fn global_events_of_nothing() {
    assert_eq!(process_global_events(&[]), GlobalOutcome { command: None, aspect: None });
    assert_eq!(
        process_global_events(&[Action::Shoot(true), Action::CamRotateN(true)]),
        GlobalOutcome { command: None, aspect: None }
    );
}

#[test]
fn global_events_an_exit_is_never_lost() {
    assert_eq!(process_global_events(&[Action::Exit]).command, Some(ProgramCommand::Exit));
    assert_eq!(
        process_global_events(&[Action::Exit, Action::Shoot(true), Action::Refresh]).command,
        Some(ProgramCommand::Exit)
    );
    assert_eq!(
        process_global_events(&[Action::Exit, Action::Refresh]).command,
        Some(ProgramCommand::Exit)
    );
    assert_eq!(
        process_global_events(&[Action::Refresh, Action::Exit, Action::CamRotateS(false)]).command,
        Some(ProgramCommand::Exit)
    );
    assert_eq!(
        process_global_events(&[
            Action::Refresh,
            Action::Exit,
            Action::Refresh,
            Action::Refresh,
            Action::SetAspect(Aspect { width: 1, height: 1 }),
        ])
        .command,
        Some(ProgramCommand::Exit)
    );
    assert_eq!(
        process_global_events(&[Action::Shoot(false), Action::Exit, Action::Exit]).command,
        Some(ProgramCommand::Exit)
    );
}

#[test]
fn global_events_a_refresh_without_an_exit() {
    assert_eq!(
        process_global_events(&[Action::Refresh]).command,
        Some(ProgramCommand::RefreshSimulation)
    );
    assert_eq!(
        process_global_events(&[Action::CamRotateN(true), Action::Refresh, Action::Shoot(true)])
            .command,
        Some(ProgramCommand::RefreshSimulation)
    );
    assert_eq!(
        process_global_events(&[Action::Refresh, Action::Refresh]).command,
        Some(ProgramCommand::RefreshSimulation)
    );
}

#[test]
fn global_events_the_last_aspect_wins() {
    let a = Aspect { width: 800, height: 600 };
    let b = Aspect { width: 1920, height: 1080 };
    assert_eq!(process_global_events(&[Action::SetAspect(a)]).aspect, Some(a));
    assert_eq!(
        process_global_events(&[Action::SetAspect(a), Action::Exit, Action::SetAspect(b)]),
        GlobalOutcome { command: Some(ProgramCommand::Exit), aspect: Some(b) }
    );
}

#[test]
fn camera_events_set_and_clear_the_keys() {
    let mut c = CameraControl::default();
    assert_eq!(c, control(false, false, false, false));
    process_camera_events(&mut c, &[Action::CamRotateCw(true), Action::CamRotateN(true)]);
    assert_eq!(c, control(true, false, true, false));
    process_camera_events(&mut c, &[Action::CamRotateCcw(true), Action::CamRotateCw(false)]);
    assert_eq!(c, control(false, true, true, false));
    process_camera_events(
        &mut c,
        &[Action::CamRotateS(true), Action::CamRotateS(false), Action::CamRotateS(true)],
    );
    assert_eq!(c, control(false, true, true, true));
    process_camera_events(&mut c, &[Action::Exit, Action::Shoot(true), Action::Refresh]);
    assert_eq!(c, control(false, true, true, true));
    process_camera_events(&mut c, &[]);
    assert_eq!(c, control(false, true, true, true));
}

#[test]
fn update_camera_every_combination() {
    for bits in 0..16u32 {
        let c = control(bits & 1 != 0, bits & 2 != 0, bits & 4 != 0, bits & 8 != 0);
        let long_vel = match (c.cw, c.ccw) {
            (true, false) => -1,
            (false, true) => 1,
            _ => 0,
        };
        let lat_vel = match (c.n, c.s) {
            (true, false) => 1,
            (false, true) => -1,
            _ => 0,
        };
        let turn = c.update_camera();
        assert_eq!(
            turn,
            Steering { long_vel, lat_vel, normalize: long_vel != 0 || lat_vel != 0 }
        );
        // the squared length of the direction is at least a tenth exactly
        // where the direction is to be normalised
        let length2 = (long_vel * long_vel + lat_vel * lat_vel) as f32;
        assert_eq!(turn.normalize, length2 >= 0.1f32);
    }
}

#[test]
fn update_camera_named_cases() {
    assert_eq!(
        control(true, false, false, false).update_camera(),
        Steering { long_vel: -1, lat_vel: 0, normalize: true }
    );
    assert_eq!(
        control(false, true, true, false).update_camera(),
        Steering { long_vel: 1, lat_vel: 1, normalize: true }
    );
    assert_eq!(
        control(true, true, false, true).update_camera(),
        Steering { long_vel: 0, lat_vel: -1, normalize: true }
    );
    assert_eq!(
        control(true, true, true, true).update_camera(),
        Steering { long_vel: 0, lat_vel: 0, normalize: false }
    );
}

#[test]
fn simulation_process_events_does_all_of_it() {
    let mut simulation = Simulation::new(4, |_: usize, _: usize, _: usize| 0u32);
    let outcome = simulation.process_events(&[
        Action::CamRotateCcw(true),
        Action::Shoot(true),
        Action::SetAspect(Aspect { width: 16, height: 9 }),
        Action::CamRotateS(true),
        Action::Refresh,
    ]);
    assert_eq!(outcome.command, Some(ProgramCommand::RefreshSimulation));
    assert_eq!(outcome.aspect, Some(Aspect { width: 16, height: 9 }));
    assert_eq!(outcome.steering, Steering { long_vel: 1, lat_vel: -1, normalize: true });

    // the keys stay held into the next frame
    let outcome = simulation.process_events(&[Action::CamRotateCcw(false)]);
    assert_eq!(outcome.command, None);
    assert_eq!(outcome.aspect, None);
    assert_eq!(outcome.steering, Steering { long_vel: 0, lat_vel: -1, normalize: true });
}

#[test]
fn simulation_an_exit_among_the_actions_is_the_command() {
    let mut simulation = Simulation::new(4, |_: usize, _: usize, _: usize| 0u32);
    let outcome = simulation.process_events(&[
        Action::CamRotateCw(true),
        Action::Exit,
        Action::Refresh,
        Action::Shoot(true),
    ]);
    assert_eq!(outcome.command, Some(ProgramCommand::Exit));
    assert_eq!(outcome.steering, Steering { long_vel: -1, lat_vel: 0, normalize: true });
}

#[test]
fn simulation_shoot_switches_the_laser() {
    let one = 1.0f32.to_bits();
    let mut simulation = Simulation::new(4, |_: usize, _: usize, _: usize| 0u32);

    // on and off again within one frame: off
    simulation.process_events(&[Action::Shoot(true), Action::Exit, Action::Shoot(false)]);
    let step = simulation.fixed_update().unwrap();
    assert!(step.heated.is_none());
    let cells = vec![0u32; 64];
    let flow = vec![0u32; 192];
    assert_eq!(simulation.synchronize(&cells, &flow, &cells), Ok(()));
    assert!(simulation.fixed_update().unwrap().heated.is_none());
    assert_eq!(simulation.synchronize(&cells, &flow, &cells), Ok(()));

    // on: the next step heats the line, and so does every step until it is
    // switched off
    simulation.process_events(&[Action::Shoot(true)]);
    simulation.process_events(&[Action::CamRotateN(true)]);
    let step = simulation.fixed_update().unwrap();
    let heated = step.heated.unwrap();
    assert_eq!(heated.len(), 64);
    assert_eq!(heated.iter().filter(|&&t| t == one).count(), 2);
    assert_eq!(simulation.synchronize(&cells, &flow, &cells), Ok(()));
    simulation.process_events(&[Action::Shoot(false)]);
    assert!(simulation.fixed_update().unwrap().heated.is_none());
}
