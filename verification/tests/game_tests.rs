use planet_sim::events::{process_global_events, Action, ProgramCommand};
use planet_sim::game::{GameFn, GameState, GameStruct, Stage, StageReport, FIXED_TIMESTEP_NS};

fn done() -> StageReport {
    StageReport { command: None, elapsed_ns: 0, ended: false }
}

fn polled(elapsed_ns: u64) -> StageReport {
    StageReport { command: None, elapsed_ns, ended: false }
}

/// Runs whole frames with the given times and counts the fixed updates.
fn fixed_updates(frames: &[u64]) -> (u64, u64) {
    let mut game = GameStruct::new();
    assert_eq!(game.init(), GameFn::StateFn(GameState::Simulation));
    assert_eq!(game.stage(), Stage::Setup);
    game.simulation(&done());
    let mut count = 0u64;
    for &elapsed in frames {
        assert_eq!(game.stage(), Stage::Draw);
        game.simulation(&done());
        assert_eq!(game.stage(), Stage::Poll);
        game.simulation(&polled(elapsed));
        while game.stage() == Stage::FixedUpdate {
            count += 1;
            game.simulation(&done());
        }
        assert_eq!(game.stage(), Stage::Update);
        assert_eq!(game.frame_ns(), elapsed);
        game.simulation(&done());
        assert_eq!(game.stage(), Stage::LateUpdate);
        game.simulation(&done());
    }
    (count, game.accumulator_ns())
}

#[test]
fn the_timestep_is_a_sixtieth_of_a_second() {
    assert_eq!(FIXED_TIMESTEP_NS, 16666667);
}

#[test]
fn game_fn_states() {
    assert_eq!(GameFn::new(GameState::Init), GameFn::StateFn(GameState::Init));
    assert_eq!(GameFn::exit(), GameFn::Exit);
    assert!(GameFn::new(GameState::Init).running());
    assert!(GameFn::new(GameState::Simulation).running());
    assert!(!GameFn::exit().running());
}

#[test]
fn init_leads_to_the_simulation() {
    let mut game = GameStruct::new();
    assert_eq!(game.stage(), Stage::Setup);
    assert_eq!(game.init(), GameFn::StateFn(GameState::Simulation));
    assert_eq!(game.stage(), Stage::Setup);
    assert_eq!(game.accumulator_ns(), 0);
    assert_eq!(game.owed(), 0);
}

#[test]
fn stages_come_in_order() {
    let mut game = GameStruct::new();
    let running = GameFn::StateFn(GameState::Simulation);
    assert_eq!(game.simulation(&done()), running);
    assert_eq!(game.stage(), Stage::Draw);
    assert_eq!(game.simulation(&done()), running);
    assert_eq!(game.stage(), Stage::Poll);
    assert_eq!(game.simulation(&polled(2 * FIXED_TIMESTEP_NS + 5)), running);
    assert_eq!(game.stage(), Stage::FixedUpdate);
    assert_eq!(game.owed(), 2);
    assert_eq!(game.accumulator_ns(), 5);
    assert_eq!(game.simulation(&done()), running);
    assert_eq!(game.stage(), Stage::FixedUpdate);
    assert_eq!(game.owed(), 1);
    assert_eq!(game.simulation(&done()), running);
    assert_eq!(game.stage(), Stage::Update);
    assert_eq!(game.owed(), 0);
    assert_eq!(game.frame_ns(), 2 * FIXED_TIMESTEP_NS + 5);
    assert_eq!(game.simulation(&done()), running);
    assert_eq!(game.stage(), Stage::LateUpdate);
    assert_eq!(game.simulation(&done()), running);
    assert_eq!(game.stage(), Stage::Draw);
    assert_eq!(game.accumulator_ns(), 5);
}

#[test]
fn a_short_frame_makes_no_fixed_update() {
    let mut game = GameStruct::new();
    game.simulation(&done());
    game.simulation(&done());
    game.simulation(&polled(FIXED_TIMESTEP_NS - 1));
    assert_eq!(game.stage(), Stage::Update);
    assert_eq!(game.owed(), 0);
    assert_eq!(game.accumulator_ns(), FIXED_TIMESTEP_NS - 1);
}

#[test]
fn what_is_left_over_counts_in_the_next_frame() {
    assert_eq!(fixed_updates(&[FIXED_TIMESTEP_NS - 1, 1]), (1, 0));
    assert_eq!(fixed_updates(&[10_000_000, 10_000_000]), (1, 20_000_000 - FIXED_TIMESTEP_NS));
    assert_eq!(
        fixed_updates(&[10_000_000, 10_000_000, 10_000_000, 10_000_000, 10_000_000]),
        (2, 50_000_000 - 2 * FIXED_TIMESTEP_NS)
    );
}

#[test]
fn three_timesteps_make_three_fixed_updates_however_chunked() {
    let t = FIXED_TIMESTEP_NS;
    assert_eq!(fixed_updates(&[3 * t]), (3, 0));
    assert_eq!(fixed_updates(&[t, t, t]), (3, 0));
    assert_eq!(fixed_updates(&[2 * t, t]), (3, 0));
    assert_eq!(fixed_updates(&[t / 2, t / 2 + 1, 2 * t]), (3, 0));
    assert_eq!(fixed_updates(&[1, 3 * t - 1]), (3, 0));
    assert_eq!(fixed_updates(&[0, 0, 3 * t, 0]), (3, 0));
    assert_eq!(fixed_updates(&[t - 1, t - 1, t - 1, 3]), (3, 0));
}

#[test]
fn many_timesteps_in_small_pieces() {
    let k = 50u64;
    let total = k * FIXED_TIMESTEP_NS;
    let mut frames = Vec::new();
    let mut sum = 0u64;
    let mut piece = 1_000_003u64;
    while sum + piece < total {
        frames.push(piece);
        sum += piece;
        piece = (piece * 7 + 11) % 40_000_000;
    }
    frames.push(total - sum);
    assert_eq!(fixed_updates(&frames), (k, 0));
}

#[test]
fn the_longest_frame_is_taken_in_full() {
    let mut game = GameStruct::new();
    game.simulation(&done());
    game.simulation(&done());
    game.simulation(&polled(FIXED_TIMESTEP_NS - 1));
    game.simulation(&done());
    game.simulation(&done());
    game.simulation(&done());
    assert_eq!(game.stage(), Stage::Poll);
    game.simulation(&polled(u64::MAX));
    let total = u64::MAX as u128 + FIXED_TIMESTEP_NS as u128 - 1;
    assert_eq!(game.owed() as u128, total / FIXED_TIMESTEP_NS as u128);
    assert_eq!(game.accumulator_ns() as u128, total % FIXED_TIMESTEP_NS as u128);
    assert_eq!(game.stage(), Stage::FixedUpdate);
}

#[test]
fn an_exit_command_ends_the_game_before_any_fixed_update() {
    let mut game = GameStruct::new();
    game.simulation(&done());
    game.simulation(&done());
    let report = StageReport {
        command: Some(ProgramCommand::Exit),
        elapsed_ns: 10 * FIXED_TIMESTEP_NS,
        ended: false,
    };
    assert_eq!(game.simulation(&report), GameFn::Exit);
    assert_eq!(game.stage(), Stage::Exited);
    assert_eq!(game.owed(), 0);
    assert_eq!(game.accumulator_ns(), 0);
}

#[test]
fn a_refresh_command_does_not_end_the_game() {
    let mut game = GameStruct::new();
    game.simulation(&done());
    game.simulation(&done());
    let report = StageReport {
        command: Some(ProgramCommand::RefreshSimulation),
        elapsed_ns: FIXED_TIMESTEP_NS,
        ended: false,
    };
    assert_eq!(game.simulation(&report), GameFn::StateFn(GameState::Simulation));
    assert_eq!(game.stage(), Stage::FixedUpdate);
}

#[test]
fn the_end_of_the_simulation_ends_the_game_after_the_late_update() {
    let mut game = GameStruct::new();
    let ended = StageReport { command: None, elapsed_ns: 0, ended: true };
    // an end reported in any other stage is not looked at
    game.simulation(&ended);
    assert_eq!(game.stage(), Stage::Draw);
    game.simulation(&ended);
    assert_eq!(game.stage(), Stage::Poll);
    game.simulation(&ended);
    assert_eq!(game.stage(), Stage::Update);
    game.simulation(&ended);
    assert_eq!(game.stage(), Stage::LateUpdate);
    assert_eq!(game.simulation(&ended), GameFn::Exit);
    assert_eq!(game.stage(), Stage::Exited);
}

#[test]
fn there_is_no_way_back_from_the_exit() {
    let mut game = GameStruct::new();
    game.simulation(&done());
    game.simulation(&done());
    let exit = StageReport { command: Some(ProgramCommand::Exit), elapsed_ns: 0, ended: false };
    assert_eq!(game.simulation(&exit), GameFn::Exit);
    for _ in 0..5 {
        assert_eq!(game.simulation(&polled(FIXED_TIMESTEP_NS)), GameFn::Exit);
        assert_eq!(game.stage(), Stage::Exited);
    }
    // only a new initialisation starts over
    assert_eq!(game.init(), GameFn::StateFn(GameState::Simulation));
    assert_eq!(game.stage(), Stage::Setup);
}

#[test]
fn calling_the_states_runs_the_game() {
    let mut game = GameStruct::new();
    let mut current = GameFn::new(GameState::Init);
    let report = StageReport { command: None, elapsed_ns: FIXED_TIMESTEP_NS, ended: false };
    let mut stages = Vec::new();
    for _ in 0..8 {
        current = current.call(&mut game, &report);
        assert!(current.running());
        stages.push(game.stage());
    }
    assert_eq!(
        stages,
        vec![
            Stage::Setup,
            Stage::Draw,
            Stage::Poll,
            Stage::FixedUpdate,
            Stage::Update,
            Stage::LateUpdate,
            Stage::Draw,
            Stage::Poll,
        ]
    );
    let exit = StageReport { command: Some(ProgramCommand::Exit), elapsed_ns: 0, ended: false };
    current = current.call(&mut game, &exit);
    assert_eq!(current, GameFn::Exit);
    assert!(!current.running());
}

#[test]
fn calling_the_initialisation_starts_over() {
    let mut game = GameStruct::new();
    let report = StageReport { command: None, elapsed_ns: 5, ended: false };
    let simulation = GameFn::new(GameState::Simulation);
    simulation.call(&mut game, &report);
    simulation.call(&mut game, &report);
    simulation.call(&mut game, &report);
    assert_eq!(game.accumulator_ns(), 5);
    let next = GameFn::new(GameState::Init).call(&mut game, &report);
    assert_eq!(next, simulation);
    assert_eq!(game.stage(), Stage::Setup);
    assert_eq!(game.accumulator_ns(), 0);
}

#[test]
fn an_exit_among_the_actions_ends_the_frame_at_the_poll() {
    let runs: [&[Action]; 4] = [
        &[Action::Exit],
        &[Action::Exit, Action::Refresh],
        &[Action::Refresh, Action::Exit, Action::Shoot(true)],
        &[Action::CamRotateN(true), Action::Refresh, Action::Refresh, Action::Exit],
    ];
    for actions in runs.iter() {
        let mut game = GameStruct::new();
        game.simulation(&done());
        game.simulation(&done());
        // some time is left over from the frame before
        game.simulation(&polled(FIXED_TIMESTEP_NS - 1));
        game.simulation(&done());
        game.simulation(&done());
        game.simulation(&done());
        assert_eq!(game.stage(), Stage::Poll);

        let report = StageReport {
            command: process_global_events(actions).command,
            elapsed_ns: 5 * FIXED_TIMESTEP_NS,
            ended: false,
        };
        assert_eq!(game.simulation(&report), GameFn::Exit);
        assert_eq!(game.stage(), Stage::Exited);
        assert_eq!(game.owed(), 0);
        assert_eq!(game.accumulator_ns(), FIXED_TIMESTEP_NS - 1);
        // nothing follows
        assert_eq!(game.simulation(&done()), GameFn::Exit);
        assert_eq!(game.stage(), Stage::Exited);
    }
}
