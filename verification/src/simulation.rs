//! The simulation as the main loop sees it: the camera control and the
//! geometry pipeline, and what the actions of a frame do to them.

use vstd::prelude::*;
use crate::camera::{CameraControl, Steering};
use crate::coupling::{kernel_args, readback};
use crate::events::{
    frame_command,
    last_aspect,
    process_camera_events,
    process_global_events,
    steer_all,
    Action,
    Aspect,
    ProgramCommand,
};
use crate::binary32::ZERO;
use crate::geometry::{cell_spacing, cube, heated, GeometryGen, Pipeline, Step, StepError};
use crate::scalar_field::cell_offset;
use crate::gradient::GradientSource;

verus! {

/// What the actions of one frame ask of the caller.
#[derive(Clone, Copy, Debug, PartialEq, Eq, Structural)]
pub struct EventOutcome {
    /// The command to the program, if an action gave one.
    pub command: Option<ProgramCommand>,
    /// The aspect to give the camera, if an action set one.
    pub aspect: Option<Aspect>,
    /// The turn to give the camera.
    pub steering: Steering,
}

/// Whether the laser is on after a run of actions: as the last action that
/// shoots says, and as before where none does.
pub open spec fn laser_after(laser: bool, actions: Seq<Action>) -> bool
    decreases actions.len(),
{
    if actions.len() == 0 {
        laser
    } else {
        match actions.last() {
            Action::Shoot(set) => set,
            _ => laser_after(laser, actions.drop_last()),
        }
    }
}

/// The state of the simulation that the actions of a frame act on.
pub struct Simulation {
    cam_control: CameraControl,
    geom_gen: GeometryGen,
}

impl Simulation {
    /// The camera control.
    pub closed spec fn control(self) -> CameraControl {
        self.cam_control
    }

    /// The geometry pipeline.
    pub closed spec fn geometry(self) -> GeometryGen {
        self.geom_gen
    }

    /// The pipeline is well formed.
    pub open spec fn wf(self) -> bool {
        self.geometry().wf()
    }

    /// Builds the simulation for a grid of side `dim`: no key held, and a
    /// new pipeline (see [`GeometryGen::new`]).
    pub fn new<F: Fn(usize, usize, usize) -> u32>(dim: usize, generator: F) -> (simulation:
        Simulation)
        requires
            GeometryGen::holds(dim),
            forall|x: usize, y: usize, z: usize|
                x < dim && y < dim && z < dim ==> call_requires(generator, (x, y, z)),
        ensures
            simulation.wf(),
            simulation.control() == (CameraControl { cw: false, ccw: false, n: false, s: false }),
            simulation.geometry()@.dim == dim,
            simulation.geometry()@.frame_count == 0,
            !simulation.geometry()@.laser,
            simulation.geometry()@.in_flight is None,
            simulation.geometry()@.mass[1] == simulation.geometry()@.mass[0],
            forall|x: usize, y: usize, z: usize|
                x < dim && y < dim && z < dim ==> call_ensures(
                    generator,
                    (x, y, z),
                    #[trigger] simulation.geometry()@.mass[0][cell_offset(
                        dim as nat,
                        x as int,
                        y as int,
                        z as int,
                    )],
                ),
            forall|g: int|
                0 <= g < 2 ==> #[trigger] simulation.geometry()@.flow[g] == Seq::new(
                    3 * cube(dim as nat),
                    |n: int| ZERO,
                ),
            forall|g: int|
                0 <= g < 2 ==> #[trigger] simulation.geometry()@.temperature[g] == Seq::new(
                    cube(dim as nat),
                    |n: int| ZERO,
                ),
    {
        let cam_control = CameraControl::default();
        let geom_gen = GeometryGen::new(dim, generator);
        Simulation { cam_control, geom_gen }
    }

    /// Brings what is drawn up to date with the simulation: hands out the
    /// source that the surface is to be extracted from (see
    /// [`GeometryGen::update_vbo`]).
    pub fn late_update(&self) -> (source: &GradientSource)
        requires
            self.wf(),
        ensures
            source.wf(),
            source.field().side() == self.geometry()@.dim,
            source.field()@ == self.geometry()@.mass[self.geometry()@.latest()],
            source.spacing() == cell_spacing(self.geometry()@.dim),
            self.geometry()@.in_flight != Some(self.geometry()@.latest() as usize),
    {
        self.geom_gen.update_vbo()
    }

    /// Applies the actions of one frame: the camera keys to the control, the
    /// laser switch to the pipeline. Returns the command to the program, the
    /// aspect to set, and the turn that the control now asks for.
    pub fn process_events(&mut self, actions: &[Action]) -> (outcome: EventOutcome)
        ensures
            outcome.command == frame_command(actions@),
            outcome.aspect == last_aspect(actions@),
            final(self).control() == steer_all(old(self).control(), actions@),
            outcome.steering == final(self).control().steering(),
            final(self).geometry()@ == (Pipeline {
                laser: laser_after(old(self).geometry()@.laser, actions@),
                ..old(self).geometry()@
            }),
            old(self).wf() ==> final(self).wf(),
    {
        let global = process_global_events(actions);
        process_camera_events(&mut self.cam_control, actions);
        let steering = self.cam_control.update_camera();
        self.process_actions(actions);

        EventOutcome { command: global.command, aspect: global.aspect, steering }
    }

    /// The first half of one fixed step, see [`GeometryGen::fixed_update`].
    pub fn fixed_update(&mut self) -> (step: Option<Step>)
        requires
            old(self).wf(),
        ensures
            final(self).wf(),
            final(self).control() == old(self).control(),
            final(self).geometry()@ == old(self).geometry()@.begun(),
            step is Some <==> old(self).geometry()@.in_flight is None,
            step matches Some(s) ==> {
                &&& s.dispatch.args@ == kernel_args(old(self).geometry()@.frame_count as nat)
                &&& s.dispatch.extent == (
                    old(self).geometry()@.dim as usize,
                    old(self).geometry()@.dim as usize,
                    old(self).geometry()@.dim as usize,
                )
                &&& s.dispatch.readback@ == readback(old(self).geometry()@.frame_count as nat)
                &&& match s.heated {
                    Some(temperature) => old(self).geometry()@.laser && temperature@ == heated(
                        old(self).geometry()@.temperature[old(self).geometry()@.target()],
                        old(self).geometry()@.dim,
                    ),
                    None => !old(self).geometry()@.laser,
                }
            },
    {
        self.geom_gen.fixed_update()
    }

    /// The second half of one fixed step, see [`GeometryGen::synchronize`].
    pub fn synchronize(&mut self, mass: &[u32], flow: &[u32], temperature: &[u32]) -> (stored:
        Result<(), StepError>)
        requires
            old(self).wf(),
        ensures
            final(self).wf(),
            final(self).control() == old(self).control(),
            final(self).geometry()@ == old(self).geometry()@.completed(
                mass@,
                flow@,
                temperature@,
            ),
            match stored {
                Ok(_) => old(self).geometry()@.refusal(mass@, flow@, temperature@) is None,
                Err(e) => old(self).geometry()@.refusal(mass@, flow@, temperature@) == Some(e),
            },
    {
        self.geom_gen.synchronize(mass, flow, temperature)
    }

    /// The geometry pipeline, to read.
    pub fn geom_gen(&self) -> (geometry: &GeometryGen)
        ensures
            *geometry == self.geometry(),
    {
        &self.geom_gen
    }

    fn process_actions(&mut self, actions: &[Action])
        ensures
            final(self).control() == old(self).control(),
            final(self).geometry()@ == (Pipeline {
                laser: laser_after(old(self).geometry()@.laser, actions@),
                ..old(self).geometry()@
            }),
            old(self).wf() ==> final(self).wf(),
    {
        let mut i: usize = 0;
        while i < actions.len()
            invariant
                i <= actions.len(),
                self.control() == old(self).control(),
                self.geometry()@ == (Pipeline {
                    laser: laser_after(old(self).geometry()@.laser, actions@.take(i as int)),
                    ..old(self).geometry()@
                }),
                old(self).wf() ==> self.wf(),
            decreases actions.len() - i,
        {
            proof {
                assert(actions@.take(i + 1).drop_last() =~= actions@.take(i as int));
            }
            match actions[i] {
                Action::Shoot(set) => self.geom_gen.explode(set),
                _ => {},
            }
            i += 1;
        }
        proof {
            assert(actions@.take(i as int) =~= actions@);
        }
    }
}

} // verus!
