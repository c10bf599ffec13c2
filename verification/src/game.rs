//! The game as a state machine, and the fixed-step scheduler of its main
//! loop.
//!
//! The caller owns the window, the clock and the renderer. It asks
//! [`GameStruct::stage`] what to do, does it, and reports back through
//! [`GameStruct::simulation`], which decides what comes next. Within one
//! frame the stages come in a fixed order: draw, poll, as many fixed updates
//! as the time that has built up pays for, one update, one late update.

use vstd::prelude::*;
use vstd::pervasive::unreached;
use crate::events::{asks_for, frame_command, Action, ProgramCommand};

verus! {

/// The fixed timestep of the simulation in nanoseconds: one sixtieth of a
/// second.
pub const FIXED_TIMESTEP_NS: u64 = 16666667;

/// The states of the game that do something.
#[derive(Clone, Copy, Debug, PartialEq, Eq, Structural)]
pub enum GameState {
    Init,
    Simulation,
}

/// Where the game goes next: into one of its states, or out.
#[derive(Clone, Copy, Debug, PartialEq, Eq, Structural)]
pub enum GameFn {
    StateFn(GameState),
    Exit,
}

impl GameFn {
    pub fn new(state: GameState) -> (next: GameFn)
        ensures
            next == GameFn::StateFn(state),
    {
        GameFn::StateFn(state)
    }

    pub fn exit() -> (next: GameFn)
        ensures
            next == GameFn::Exit,
    {
        GameFn::Exit
    }

    pub fn running(&self) -> (running: bool)
        ensures
            running == (*self != GameFn::Exit),
    {
        match self {
            GameFn::Exit => false,
            _ => true,
        }
    }

    /// Runs the state on the game and returns where the game goes next: the
    /// initialisation leads to the simulation, and the simulation to itself
    /// until it is over. `report` is what [`GameStruct::simulation`] takes.
    ///
    /// There is nothing to run once the game has gone out.
    pub fn call(&self, game: &mut GameStruct, report: &StageReport) -> (next: GameFn)
        requires
            *self != GameFn::Exit,
            *self == GameFn::StateFn(GameState::Simulation) ==> old(game)@.wf(),
        ensures
            final(game)@.wf(),
            match *self {
                GameFn::StateFn(GameState::Init) => {
                    &&& final(game)@ == Schedule::fresh()
                    &&& next == GameFn::StateFn(GameState::Simulation)
                },
                _ => {
                    &&& final(game)@ == advance(old(game)@, *report)
                    &&& next == if final(game)@.stage == Stage::Exited {
                        GameFn::Exit
                    } else {
                        GameFn::StateFn(GameState::Simulation)
                    }
                },
            },
    {
        match self {
            GameFn::StateFn(GameState::Init) => game.init(),
            GameFn::StateFn(GameState::Simulation) => game.simulation(report),
            GameFn::Exit => unreached(),
        }
    }
}

/// The work that the caller is to do next.
#[derive(Clone, Copy, Debug, PartialEq, Eq, Structural)]
pub enum Stage {
    /// Build the simulation and bring it up to date once, before the first
    /// frame.
    Setup,
    /// Render, with the mesh of the frame before.
    Draw,
    /// Collect the input events, hand them to the simulation, and read the
    /// clock.
    Poll,
    /// Advance the simulation by one fixed timestep.
    FixedUpdate,
    /// Advance what runs at the frame rate by the time the frame took.
    Update,
    /// Bring everything that is drawn up to date with the simulation.
    LateUpdate,
    /// Nothing: the game is over.
    Exited,
}

/// What the caller reports once it has done the work of a stage.
#[derive(Clone, Copy, Debug, PartialEq, Eq, Structural)]
pub struct StageReport {
    /// After [`Stage::Poll`]: the command that the frame's actions gave.
    pub command: Option<ProgramCommand>,
    /// After [`Stage::Poll`]: the nanoseconds since the poll of the frame
    /// before (since the setup, in the first frame).
    pub elapsed_ns: u64,
    /// After [`Stage::LateUpdate`]: whether the simulation has come to its
    /// end.
    pub ended: bool,
}

/// The scheduler as a mathematical value.
pub struct Schedule {
    /// The work that is to be done next.
    pub stage: Stage,
    /// Nanoseconds that have passed and that no fixed update has used yet.
    pub accumulator: nat,
    /// Fixed updates that this frame still has to make.
    pub owed: nat,
    /// Nanoseconds that the frame under way took.
    pub frame_ns: nat,
}

/// The number of fixed updates that a frame makes, given what was left over
/// before it and the time it took.
pub open spec fn updates_due(accumulator: nat, elapsed: nat) -> nat {
    (accumulator + elapsed) / (FIXED_TIMESTEP_NS as nat)
}

/// The time that a frame leaves over for the next one.
pub open spec fn carried_over(accumulator: nat, elapsed: nat) -> nat {
    (accumulator + elapsed) % (FIXED_TIMESTEP_NS as nat)
}

/// The stage that follows when `owed` fixed updates are still to be made.
pub open spec fn stage_for(owed: nat) -> Stage {
    if owed > 0 {
        Stage::FixedUpdate
    } else {
        Stage::Update
    }
}

/// The schedule after the work of its stage has been done and reported.
pub open spec fn advance(s: Schedule, report: StageReport) -> Schedule {
    match s.stage {
        Stage::Setup => Schedule { stage: Stage::Draw, ..s },
        Stage::Draw => Schedule { stage: Stage::Poll, ..s },
        Stage::Poll => if report.command == Some(ProgramCommand::Exit) {
            Schedule { stage: Stage::Exited, ..s }
        } else {
            let owed = updates_due(s.accumulator, report.elapsed_ns as nat);
            Schedule {
                stage: stage_for(owed),
                accumulator: carried_over(s.accumulator, report.elapsed_ns as nat),
                owed,
                frame_ns: report.elapsed_ns as nat,
            }
        },
        Stage::FixedUpdate => {
            let owed = (s.owed - 1) as nat;
            Schedule { stage: stage_for(owed), owed, ..s }
        },
        Stage::Update => Schedule { stage: Stage::LateUpdate, ..s },
        Stage::LateUpdate => if report.ended {
            Schedule { stage: Stage::Exited, ..s }
        } else {
            Schedule { stage: Stage::Draw, ..s }
        },
        Stage::Exited => s,
    }
}

/// The schedule after `n` stages have been carried out, each reported with
/// the same report.
pub open spec fn advance_by(s: Schedule, report: StageReport, n: nat) -> Schedule
    decreases n,
{
    if n == 0 {
        s
    } else {
        advance(advance_by(s, report, (n - 1) as nat), report)
    }
}

/// The time that a run of frames took, all in all.
pub open spec fn total_elapsed(frames: Seq<nat>) -> nat
    decreases frames.len(),
{
    if frames.len() == 0 {
        0
    } else {
        frames.first() + total_elapsed(frames.drop_first())
    }
}

/// The number of fixed updates that a run of frames makes, all in all, where
/// `accumulator` was left over before the first of them.
pub open spec fn total_updates(accumulator: nat, frames: Seq<nat>) -> nat
    decreases frames.len(),
{
    if frames.len() == 0 {
        0
    } else {
        updates_due(accumulator, frames.first()) + total_updates(
            carried_over(accumulator, frames.first()),
            frames.drop_first(),
        )
    }
}

/// The time that a run of frames leaves over.
pub open spec fn left_over(accumulator: nat, frames: Seq<nat>) -> nat
    decreases frames.len(),
{
    if frames.len() == 0 {
        accumulator
    } else {
        left_over(carried_over(accumulator, frames.first()), frames.drop_first())
    }
}

/// No time is lost: what was left over before a run of frames and the time
/// they took is, to the nanosecond, the time that their fixed updates used
/// and what is left over after them, which is less than one timestep.
pub proof fn lemma_time_is_conserved(accumulator: nat, frames: Seq<nat>)
    requires
        accumulator < FIXED_TIMESTEP_NS,
    ensures
        accumulator + total_elapsed(frames) == FIXED_TIMESTEP_NS * total_updates(
            accumulator,
            frames,
        ) + left_over(accumulator, frames),
        left_over(accumulator, frames) < FIXED_TIMESTEP_NS,
    decreases frames.len(),
{
    if frames.len() > 0 {
        let sum = accumulator + frames.first();
        assert(sum == 16666667 * (sum / 16666667) + sum % 16666667);
        lemma_time_is_conserved(carried_over(accumulator, frames.first()), frames.drop_first());
    }
}

/// Frames that take exactly `k` timesteps between them make exactly `k`
/// fixed updates and leave nothing over, however the time is spread over
/// them.
pub proof fn lemma_exact_timesteps(frames: Seq<nat>, k: nat)
    requires
        total_elapsed(frames) == k * FIXED_TIMESTEP_NS,
    ensures
        total_updates(0, frames) == k,
        left_over(0, frames) == 0,
{
    lemma_time_is_conserved(0, frames);
}

/// Two runs of frames that take the same time make the same number of fixed
/// updates and leave the same time over.
pub proof fn lemma_chunking_is_irrelevant(accumulator: nat, a: Seq<nat>, b: Seq<nat>)
    requires
        accumulator < FIXED_TIMESTEP_NS,
        total_elapsed(a) == total_elapsed(b),
    ensures
        total_updates(accumulator, a) == total_updates(accumulator, b),
        left_over(accumulator, a) == left_over(accumulator, b),
{
    lemma_time_is_conserved(accumulator, a);
    lemma_time_is_conserved(accumulator, b);
}

/// A frame makes the fixed updates that it owes one by one, stays in the
/// stage of the fixed updates until the last of them is made, and goes on to
/// the update then, with the time left over untouched.
pub proof fn lemma_owed_updates_are_made(s: Schedule, report: StageReport, n: nat)
    requires
        s.wf(),
        s.stage == Stage::FixedUpdate,
        n <= s.owed,
    ensures
        advance_by(s, report, n) == (Schedule {
            stage: stage_for((s.owed - n) as nat),
            owed: (s.owed - n) as nat,
            ..s
        }),
    decreases n,
{
    if n > 0 {
        lemma_owed_updates_are_made(s, report, (n - 1) as nat);
    }
}

/// Once the game is over it stays over, whatever is reported.
pub proof fn lemma_exited_is_final(s: Schedule, report: StageReport, n: nat)
    requires
        s.stage == Stage::Exited,
    ensures
        advance_by(s, report, n) == s,
    decreases n,
{
    if n > 0 {
        lemma_exited_is_final(s, report, (n - 1) as nat);
    }
}

/// A frame in which any action asks for the exit ends the game at its poll,
/// wherever the action stands among the others and however much time has
/// built up: the command that the actions give is the exit, the schedule
/// goes from the poll straight to the end, and neither a fixed update nor an
/// update nor a late update follows. Time and owed updates are left as they
/// were.
pub proof fn lemma_exit_ends_the_frame(
    s: Schedule,
    actions: Seq<Action>,
    elapsed_ns: u64,
    ended: bool,
)
    requires
        s.stage == Stage::Poll,
        actions.contains(Action::Exit),
    ensures
        frame_command(actions) == Some(ProgramCommand::Exit),
        advance(s, StageReport { command: frame_command(actions), elapsed_ns, ended }) == (
        Schedule { stage: Stage::Exited, ..s }),
{
    let i = choose|i: int| 0 <= i < actions.len() && actions[i] == Action::Exit;
    assert(crate::events::command_of(actions[i]) == Some(ProgramCommand::Exit));
    assert(asks_for(actions, ProgramCommand::Exit));
}

/// The state that is there through all states of the game: the scheduler of
/// the main loop.
pub struct GameStruct {
    stage: Stage,
    accumulator_ns: u64,
    owed: u64,
    frame_ns: u64,
}

impl View for GameStruct {
    type V = Schedule;

    closed spec fn view(&self) -> Schedule {
        Schedule {
            stage: self.stage,
            accumulator: self.accumulator_ns as nat,
            owed: self.owed as nat,
            frame_ns: self.frame_ns as nat,
        }
    }
}

impl Schedule {
    /// Less than one timestep is left over, and fixed updates are owed in the
    /// stage that makes them and in no other.
    pub open spec fn wf(self) -> bool {
        &&& self.accumulator < FIXED_TIMESTEP_NS
        &&& self.owed <= u64::MAX
        &&& self.frame_ns <= u64::MAX
        &&& self.stage == Stage::FixedUpdate <==> self.owed > 0
    }

    /// A schedule before its first frame.
    pub open spec fn fresh() -> Schedule {
        Schedule { stage: Stage::Setup, accumulator: 0, owed: 0, frame_ns: 0 }
    }
}

impl GameStruct {
    pub fn new() -> (game: GameStruct)
        ensures
            game@ == Schedule::fresh(),
            game@.wf(),
    {
        GameStruct { stage: Stage::Setup, accumulator_ns: 0, owed: 0, frame_ns: 0 }
    }

    /// Initialize game-state.
    pub fn init(&mut self) -> (next: GameFn)
        ensures
            final(self)@ == Schedule::fresh(),
            final(self)@.wf(),
            next == GameFn::StateFn(GameState::Simulation),
    {
        self.stage = Stage::Setup;
        self.accumulator_ns = 0;
        self.owed = 0;
        self.frame_ns = 0;
        // After initialization, go to simulation
        GameFn::new(GameState::Simulation)
    }

    /// The work that the caller is to do next.
    pub fn stage(&self) -> (stage: Stage)
        ensures
            stage == self@.stage,
    {
        self.stage
    }

    /// The nanoseconds that the frame under way took: the time to hand to
    /// the update that runs at the frame rate.
    pub fn frame_ns(&self) -> (ns: u64)
        ensures
            ns == self@.frame_ns,
    {
        self.frame_ns
    }

    /// The nanoseconds that no fixed update has used yet.
    pub fn accumulator_ns(&self) -> (ns: u64)
        ensures
            ns == self@.accumulator,
    {
        self.accumulator_ns
    }

    /// The fixed updates that this frame still has to make.
    pub fn owed(&self) -> (n: u64)
        ensures
            n == self@.owed,
    {
        self.owed
    }

    /// The game. Takes the report on the stage that was just carried out and
    /// moves on to the next one; returns [`GameFn::Exit`] once the game is
    /// over, and the simulation state until then.
    pub fn simulation(&mut self, report: &StageReport) -> (next: GameFn)
        requires
            old(self)@.wf(),
        ensures
            final(self)@ == advance(old(self)@, *report),
            final(self)@.wf(),
            next == if final(self)@.stage == Stage::Exited {
                GameFn::Exit
            } else {
                GameFn::StateFn(GameState::Simulation)
            },
    {
        match self.stage {
            Stage::Setup => {
                self.stage = Stage::Draw;
            },
            Stage::Draw => {
                self.stage = Stage::Poll;
            },
            Stage::Poll => {
                let exit = match report.command {
                    Some(ProgramCommand::Exit) => true,
                    _ => false,
                };
                if exit {
                    self.stage = Stage::Exited;
                } else {
                    let total: u128 = self.accumulator_ns as u128 + report.elapsed_ns as u128;
                    let owed: u128 = total / (FIXED_TIMESTEP_NS as u128);
                    let left: u128 = total % (FIXED_TIMESTEP_NS as u128);
                    assert(owed <= u64::MAX) by (nonlinear_arith)
                        requires
                            owed == total / 16666667,
                            total < 16666667 + 0x1_0000_0000_0000_0000,
                    ;
                    self.owed = owed as u64;
                    self.accumulator_ns = left as u64;
                    self.frame_ns = report.elapsed_ns;
                    self.stage = if owed > 0 {
                        Stage::FixedUpdate
                    } else {
                        Stage::Update
                    };
                }
            },
            Stage::FixedUpdate => {
                self.owed = self.owed - 1;
                if self.owed == 0 {
                    self.stage = Stage::Update;
                }
            },
            Stage::Update => {
                self.stage = Stage::LateUpdate;
            },
            Stage::LateUpdate => {
                self.stage = if report.ended {
                    Stage::Exited
                } else {
                    Stage::Draw
                };
            },
            Stage::Exited => {},
        }
        match self.stage {
            Stage::Exited => GameFn::exit(),
            _ => GameFn::new(GameState::Simulation),
        }
    }
}

} // verus!
