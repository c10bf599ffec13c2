//! The geometry pipeline: the two generations of mass, flow and temperature
//! on the host, the step that advances them, and the choice of the
//! generation that the surface is extracted from.
//!
//! The compute kernel and the surface extraction run outside. One step of
//! the simulation therefore comes in two halves: [`GeometryGen::fixed_update`]
//! prepares the step and hands it out, and [`GeometryGen::synchronize`]
//! stores what the kernel wrote.
//!
//! The host itself writes to the buffers in one place only: with the laser
//! on, the first half of a step heats a line in the temperature of the
//! generation that the step writes. The generation that the step reads is
//! never written, so the heat is input to the kernel one step later.

use vstd::prelude::*;
use vstd::pervasive::unreached;
use crate::binary32::{ONE, ZERO};
use crate::coupling::{
    bind,
    call,
    extent_cells,
    kernel_args,
    lemma_generations_alternate,
    read_generation,
    read_index,
    readback,
    write_generation,
    write_index,
    BufferId,
    Coupling,
    Dispatch,
    Ownership,
    Quantity,
    FLOW_COMPONENTS,
};
use crate::grid::{
    axis_len,
    filled,
    flatten,
    grid_cells,
    grid_shape,
    lemma_offset_in_volume,
    offset,
    overwrite,
    put,
    volume,
    Grid,
};
use crate::gradient::GradientSource;
use crate::scalar_field::{cell_offset, sample_span, span_of, Ratio, ScalarField};

verus! {

/// Why [`GeometryGen::synchronize`] refused the results of a step.
#[derive(Clone, Copy, Debug, PartialEq, Eq, Structural)]
pub enum StepError {
    /// No step is in flight.
    NotInFlight,
    /// The results for this quantity do not have the length of its buffers.
    Length(Quantity),
}

/// One step of the pipeline, for the caller to carry out: send the device
/// what the host holds of the buffers that the kernel reads, and the heated
/// temperature where there is one; then run the kernel as the dispatch says
/// and read its results back.
pub struct Step {
    /// The kernel's arguments, the extent it runs over, and the buffers to
    /// read back.
    pub dispatch: Dispatch,
    /// Where the laser is on: the temperature of the generation that the
    /// step writes, with the laser's line heated. It is to be in the
    /// device's buffer of that generation before the kernel runs.
    pub heated: Option<Vec<u32>>,
}

/// The pipeline as a mathematical value. Each quantity is a sequence of two
/// generations, each generation the sequence of its scalars.
pub struct Pipeline {
    /// The number of cells along each axis.
    pub dim: nat,
    pub mass: Seq<Seq<u32>>,
    pub flow: Seq<Seq<u32>>,
    pub temperature: Seq<Seq<u32>>,
    /// The number of steps that have been completed.
    pub frame_count: usize,
    /// Whether the laser is on.
    pub laser: bool,
    /// The generation that a step in flight is writing.
    pub in_flight: Option<usize>,
}

/// The number of cells of a cubic grid.
pub open spec fn cube(dim: nat) -> nat {
    dim * dim * dim
}

/// The count of completed steps after one more.
pub open spec fn next_frame(frame_count: usize) -> usize {
    if frame_count == usize::MAX {
        0
    } else {
        (frame_count + 1) as usize
    }
}

/// The distance between two neighbouring samples of a grid of side `dim`, in
/// the coordinates of the unit cube: one over the span of the indices.
pub open spec fn cell_spacing(dim: nat) -> Ratio {
    Ratio { numerator: 1, denominator: span_of(dim) as usize }
}

/// The place of the first cell of the line that the laser heats: the line
/// starts at the middle of the first two axes and at the low end of the
/// third.
pub open spec fn laser_base(dim: nat) -> int {
    offset((dim, dim, dim), (dim / 2) as int, (dim / 2) as int, 0)
}

/// Whether the laser heats the cell at place `n`: the line runs from its
/// base halfway along the third axis.
pub open spec fn on_laser_line(dim: nat, n: int) -> bool {
    laser_base(dim) <= n < laser_base(dim) + dim / 2
}

/// A temperature buffer after the laser has heated its line to one.
pub open spec fn heated(temperature: Seq<u32>, dim: nat) -> Seq<u32> {
    Seq::new(
        temperature.len(),
        |n: int|
            if on_laser_line(dim, n) {
                ONE
            } else {
                temperature[n]
            },
    )
}

impl Pipeline {
    /// Both generations of every quantity are there in full, and a step in
    /// flight writes the generation that the frame count gives it.
    pub open spec fn wf(self) -> bool {
        &&& 3 <= self.dim
        &&& self.mass.len() == 2
        &&& self.flow.len() == 2
        &&& self.temperature.len() == 2
        &&& forall|g: int| 0 <= g < 2 ==> (#[trigger] self.mass[g]).len() == cube(self.dim)
        &&& forall|g: int| 0 <= g < 2 ==> (#[trigger] self.flow[g]).len() == 3 * cube(self.dim)
        &&& forall|g: int|
            0 <= g < 2 ==> (#[trigger] self.temperature[g]).len() == cube(self.dim)
        &&& self.in_flight matches Some(g) ==> g == write_generation(self.frame_count as nat)
    }

    /// The generation that the last completed step wrote, which is the one
    /// that the next step reads. Before the first step it is generation 0.
    pub open spec fn latest(self) -> int {
        read_generation(self.frame_count as nat) as int
    }

    /// The generation that the next step writes, or that the step in flight
    /// is writing.
    pub open spec fn target(self) -> int {
        write_generation(self.frame_count as nat) as int
    }

    /// The pipeline after the first half of a step: where the laser is on,
    /// its line is heated in the temperature of the target generation, the
    /// one that the step writes; then the target generation goes to the
    /// device. The generation that the step reads is not touched, so the
    /// kernel reads the heat as input one step later at the earliest. With a
    /// step in flight nothing changes.
    pub open spec fn begun(self) -> Pipeline {
        if self.in_flight is Some {
            self
        } else {
            Pipeline {
                temperature: if self.laser {
                    self.temperature.update(
                        self.target(),
                        heated(self.temperature[self.target()], self.dim),
                    )
                } else {
                    self.temperature
                },
                in_flight: Some(self.target() as usize),
                ..self
            }
        }
    }

    /// Whether results of these lengths are accepted, and if not, why.
    pub open spec fn refusal(self, mass: Seq<u32>, flow: Seq<u32>, temperature: Seq<u32>) -> Option<
        StepError,
    > {
        if self.in_flight is None {
            Some(StepError::NotInFlight)
        } else if mass.len() != cube(self.dim) {
            Some(StepError::Length(Quantity::Mass))
        } else if flow.len() != 3 * cube(self.dim) {
            Some(StepError::Length(Quantity::Flow))
        } else if temperature.len() != cube(self.dim) {
            Some(StepError::Length(Quantity::Temperature))
        } else {
            None
        }
    }

    /// The pipeline after the second half of a step: the results become the
    /// target generation, in place of all that the host held there, the
    /// laser's heat included; the other generation stays as it is, the step
    /// is counted, and both generations are the host's again. The heat lasts
    /// as far as the kernel, which finds it in the buffer it writes, hands it
    /// back. Results that are refused change nothing.
    pub open spec fn completed(self, mass: Seq<u32>, flow: Seq<u32>, temperature: Seq<u32>) -> Pipeline {
        if self.refusal(mass, flow, temperature) is Some {
            self
        } else {
            Pipeline {
                mass: self.mass.update(self.target(), mass),
                flow: self.flow.update(self.target(), flow),
                temperature: self.temperature.update(self.target(), temperature),
                frame_count: next_frame(self.frame_count),
                in_flight: None,
                ..self
            }
        }
    }
}

impl Pipeline {
    /// The pipeline after one whole step whose kernel copies what it reads:
    /// the results of the step are the buffers of the generation it read.
    pub open spec fn copied(self) -> Pipeline {
        let begun = self.begun();
        begun.completed(
            begun.mass[begun.latest()],
            begun.flow[begun.latest()],
            begun.temperature[begun.latest()],
        )
    }
}

/// The two generations change roles with every step, also where the count
/// of steps starts again from zero: what a step wrote is read by the next
/// one, and what it read is the next one's to write.
pub proof fn lemma_step_swaps_generations(frame_count: usize)
    ensures
        read_generation(next_frame(frame_count) as nat) == write_generation(frame_count as nat),
        write_generation(next_frame(frame_count) as nat) == read_generation(frame_count as nat),
{
    assert(usize::MAX % 2 == 1) by {
        assert(usize::MAX == 0xFFFF_FFFF || usize::MAX == 0xFFFF_FFFF_FFFF_FFFF);
    }
}

/// A step writes one generation and no other: with the laser on or off and
/// whatever the kernel hands back, the generation that the step reads holds
/// throughout the step what it held before. The host writes nothing but the
/// laser's line in the target temperature before the kernel runs; after the
/// step the target generation holds the results, the step is counted, and
/// the generation written is the latest.
pub proof fn lemma_step_keeps_read_generation(
    p: Pipeline,
    mass: Seq<u32>,
    flow: Seq<u32>,
    temperature: Seq<u32>,
)
    requires
        p.wf(),
        p.in_flight is None,
        p.begun().refusal(mass, flow, temperature) is None,
    ensures
        ({
            let begun = p.begun();
            let after = begun.completed(mass, flow, temperature);
            &&& after.wf()
            &&& after.in_flight is None
            &&& begun.mass == p.mass
            &&& begun.flow == p.flow
            &&& begun.temperature[p.latest()] == p.temperature[p.latest()]
            &&& begun.temperature[p.target()] == if p.laser {
                heated(p.temperature[p.target()], p.dim)
            } else {
                p.temperature[p.target()]
            }
            &&& after.mass[p.latest()] == p.mass[p.latest()]
            &&& after.flow[p.latest()] == p.flow[p.latest()]
            &&& after.temperature[p.latest()] == p.temperature[p.latest()]
            &&& after.mass[p.target()] == mass
            &&& after.flow[p.target()] == flow
            &&& after.temperature[p.target()] == temperature
            &&& after.latest() == p.target()
            &&& after.target() == p.latest()
        }),
{
    lemma_step_swaps_generations(p.frame_count);
    let begun = p.begun();
    lemma_generations_alternate(p.frame_count as nat);
    if p.laser {
        assert(heated(p.temperature[p.target()], p.dim).len() == cube(p.dim));
    }
    assert(begun.wf());
}

/// A step whose kernel copies what it reads makes the generation it writes
/// equal to the one it read; and after two such steps both generations of
/// every quantity hold what the first of the two steps read. So where the
/// two generations started equal, as they do in a new pipeline, two copying
/// steps leave every buffer as it was. The laser changes nothing in this:
/// it heats the written generation only, and a kernel that copies what it
/// reads writes over the heat.
pub proof fn lemma_copying_steps_keep_state(p: Pipeline)
    requires
        p.wf(),
        p.in_flight is None,
    ensures
        ({
            let twice = p.copied().copied();
            &&& twice.wf()
            &&& twice.in_flight is None
            &&& twice.latest() == p.latest()
            &&& forall|g: int| 0 <= g < 2 ==> #[trigger] twice.mass[g] == p.mass[p.latest()]
            &&& forall|g: int| 0 <= g < 2 ==> #[trigger] twice.flow[g] == p.flow[p.latest()]
            &&& forall|g: int|
                0 <= g < 2 ==> #[trigger] twice.temperature[g] == p.temperature[p.latest()]
            &&& (p.mass[0] == p.mass[1] ==> twice.mass == p.mass)
            &&& (p.flow[0] == p.flow[1] ==> twice.flow == p.flow)
            &&& (p.temperature[0] == p.temperature[1] ==> twice.temperature == p.temperature)
        }),
{
    let b1 = p.begun();
    lemma_step_keeps_read_generation(
        p,
        b1.mass[b1.latest()],
        b1.flow[b1.latest()],
        b1.temperature[b1.latest()],
    );
    let once = p.copied();
    let b2 = once.begun();
    lemma_step_keeps_read_generation(
        once,
        b2.mass[b2.latest()],
        b2.flow[b2.latest()],
        b2.temperature[b2.latest()],
    );
    let twice = once.copied();
    assert(p.latest() == 0 || p.latest() == 1);
    assert(p.target() == 1 - p.latest());
    if p.mass[0] == p.mass[1] {
        assert(twice.mass =~= p.mass);
    }
    if p.flow[0] == p.flow[1] {
        assert(twice.flow =~= p.flow);
    }
    if p.temperature[0] == p.temperature[1] {
        assert(twice.temperature =~= p.temperature);
    }
}

/// The host side of the simulation: both generations of the three
/// quantities, the count of completed steps, and the coupling to the kernel.
pub struct GeometryGen {
    // Double buffered
    source_0: GradientSource,
    source_1: GradientSource,
    flow_0: Grid,
    flow_1: Grid,
    temperature_0: Grid,
    temperature_1: Grid,
    frame_count: usize,
    dim: usize,
    coupling: Coupling,
    laser: bool,
}

impl View for GeometryGen {
    type V = Pipeline;

    closed spec fn view(&self) -> Pipeline {
        Pipeline {
            dim: self.dim as nat,
            mass: seq![self.source_0.field()@, self.source_1.field()@],
            flow: seq![grid_cells(self.flow_0), grid_cells(self.flow_1)],
            temperature: seq![grid_cells(self.temperature_0), grid_cells(self.temperature_1)],
            frame_count: self.frame_count,
            laser: self.laser,
            in_flight: self.coupling.in_flight(),
        }
    }
}

/// Heats the laser's line in a temperature buffer of side `dim`.
fn heat(temperature: &mut Grid, dim: usize)
    requires
        grid_shape(*old(temperature)) == (dim as nat, dim as nat, dim as nat),
        grid_cells(*old(temperature)).len() == cube(dim as nat),
    ensures
        grid_shape(*final(temperature)) == grid_shape(*old(temperature)),
        grid_cells(*final(temperature)) == heated(grid_cells(*old(temperature)), dim as nat),
{
    let len = axis_len(temperature, 0);
    let pos = len / 2;
    let ghost shape = (dim as nat, dim as nat, dim as nat);
    let ghost before = grid_cells(*temperature);
    let ghost base = laser_base(dim as nat);
    // The line is walked from its far end back to its base.
    let mut k: usize = pos;
    while k > 0
        invariant
            k <= pos,
            pos == dim / 2,
            shape == (dim as nat, dim as nat, dim as nat),
            base == laser_base(dim as nat),
            grid_shape(*temperature) == shape,
            before.len() == cube(dim as nat),
            grid_cells(*temperature) == Seq::new(
                before.len(),
                |n: int|
                    if base + k <= n < base + pos {
                        ONE
                    } else {
                        before[n]
                    },
            ),
        decreases k,
    {
        k -= 1;
        proof {
            lemma_offset_in_volume(shape, pos as int, pos as int, k as int);
        }
        put(temperature, pos, pos, k, ONE);
        assert(grid_cells(*temperature) =~= Seq::new(
            before.len(),
            |n: int|
                if base + k <= n < base + pos {
                    ONE
                } else {
                    before[n]
                },
        ));
    }
    assert(grid_cells(*temperature) =~= heated(before, dim as nat));
}

impl GeometryGen {
    /// The arrays are of the shapes that the side calls for, and the coupling
    /// is bound to the same grid.
    pub closed spec fn well_stored(self) -> bool {
        &&& self.source_0.wf()
        &&& self.source_1.wf()
        &&& self.source_0.field().side() == self.dim
        &&& self.source_1.field().side() == self.dim
        &&& self.source_0.spacing() == cell_spacing(self.dim as nat)
        &&& self.source_1.spacing() == cell_spacing(self.dim as nat)
        &&& grid_shape(self.flow_0) == (self.dim as nat, self.dim as nat, (3 * self.dim) as nat)
        &&& grid_shape(self.flow_1) == (self.dim as nat, self.dim as nat, (3 * self.dim) as nat)
        &&& grid_shape(self.temperature_0) == (self.dim as nat, self.dim as nat, self.dim as nat)
        &&& grid_shape(self.temperature_1) == (self.dim as nat, self.dim as nat, self.dim as nat)
        &&& self.coupling.wf()
        &&& self.coupling.dims() == (self.dim, self.dim, self.dim)
        &&& 12 * (self.dim * self.dim * self.dim) <= isize::MAX
    }

    /// The arrays are stored as they should be, and the pipeline that they
    /// stand for is well formed.
    pub open spec fn wf(self) -> bool {
        self.well_stored() && self@.wf()
    }

    /// Whether a pipeline of this side can be held: the side is at least 3
    /// and the bytes of a flow buffer can be counted in `isize`.
    pub open spec fn holds(dim: usize) -> bool {
        3 <= dim && 12 * (dim * dim * dim) <= isize::MAX
    }

    /// Whether a pipeline of this side can be held, see
    /// [`GeometryGen::holds`].
    pub fn supported(dim: usize) -> (ok: bool)
        ensures
            ok == Self::holds(dim),
    {
        if dim < 3 {
            return false;
        }
        let limit: usize = isize::MAX as usize / 12;
        match dim.checked_mul(dim) {
            None => {
                assert(dim * dim * dim >= dim * dim) by (nonlinear_arith)
                    requires
                        dim >= 1,
                ;
                false
            },
            Some(plane) => match plane.checked_mul(dim) {
                None => false,
                Some(cells) => cells <= limit,
            },
        }
    }

    /// Builds the pipeline for a grid of side `dim`. Both generations of the
    /// mass start as the same field, whose cells `generator` gives (see
    /// [`ScalarField::new`]); flow and temperature start at zero everywhere.
    /// No step has been made, the laser is off, and the kernel's arguments
    /// are bound as for the first step.
    pub fn new<F: Fn(usize, usize, usize) -> u32>(dim: usize, generator: F) -> (geometry:
        GeometryGen)
        requires
            Self::holds(dim),
            forall|x: usize, y: usize, z: usize|
                x < dim && y < dim && z < dim ==> call_requires(generator, (x, y, z)),
        ensures
            geometry.wf(),
            geometry@.dim == dim,
            geometry@.frame_count == 0,
            !geometry@.laser,
            geometry@.in_flight is None,
            geometry@.mass[1] == geometry@.mass[0],
            forall|x: usize, y: usize, z: usize|
                x < dim && y < dim && z < dim ==> call_ensures(
                    generator,
                    (x, y, z),
                    #[trigger] geometry@.mass[0][cell_offset(
                        dim as nat,
                        x as int,
                        y as int,
                        z as int,
                    )],
                ),
            forall|g: int|
                0 <= g < 2 ==> #[trigger] geometry@.flow[g] == Seq::new(
                    3 * cube(dim as nat),
                    |n: int| ZERO,
                ),
            forall|g: int|
                0 <= g < 2 ==> #[trigger] geometry@.temperature[g] == Seq::new(
                    cube(dim as nat),
                    |n: int| ZERO,
                ),
    {
        proof {
            lemma_flow_fits(dim);
        }
        let model = ScalarField::new(dim, generator);

        let cell_dist = Ratio { numerator: 1, denominator: sample_span(dim) };
        let source_0 = GradientSource::new_with_epsilon(model.clone(), cell_dist);
        let source_1 = GradientSource::new_with_epsilon(model, cell_dist);

        // Reserve space for three scalars per cell
        let flow_0 = filled(dim, dim, FLOW_COMPONENTS * dim, ZERO);
        let flow_1 = filled(dim, dim, FLOW_COMPONENTS * dim, ZERO);

        let temperature_0 = filled(dim, dim, dim, ZERO);
        let temperature_1 = filled(dim, dim, dim, ZERO);

        let mass_host_0 = source_0.inner().into_slice();
        let mass_host_1 = source_1.inner().into_slice();
        let flow_host_0 = flatten(&flow_0);
        let flow_host_1 = flatten(&flow_1);
        let temperature_host_0 = flatten(&temperature_0);
        let temperature_host_1 = flatten(&temperature_1);
        proof {
            assert(extent_cells((dim, dim, dim)) == cube(dim as nat));
            assert(mass_host_0@.len() == cube(dim as nat));
            assert(mass_host_1@.len() == cube(dim as nat));
            assert(flow_host_0@.len() == 3 * cube(dim as nat));
            assert(flow_host_1@.len() == 3 * cube(dim as nat));
            assert(temperature_host_0@.len() == cube(dim as nat));
            assert(temperature_host_1@.len() == cube(dim as nat));
        }
        let bound = bind(
            [mass_host_0.as_slice(), mass_host_1.as_slice()],
            [flow_host_0.as_slice(), flow_host_1.as_slice()],
            [temperature_host_0.as_slice(), temperature_host_1.as_slice()],
            (dim, dim, dim),
        );
        let coupling = match bound {
            Ok(coupling) => coupling,
            Err(_) => {
                // Every buffer was made with the length that its quantity
                // calls for.
                unreached()
            },
        };

        let geometry = GeometryGen {
            source_0,
            source_1,
            flow_0,
            flow_1,
            temperature_0,
            temperature_1,
            frame_count: 0,
            dim,
            coupling,
            laser: false,
        };
        proof {
            assert(geometry@.flow[0] =~= Seq::new(3 * cube(dim as nat), |n: int| ZERO));
            assert(geometry@.flow[1] =~= Seq::new(3 * cube(dim as nat), |n: int| ZERO));
            assert(geometry@.temperature[0] =~= Seq::new(cube(dim as nat), |n: int| ZERO));
            assert(geometry@.temperature[1] =~= Seq::new(cube(dim as nat), |n: int| ZERO));
            assert forall|x: usize, y: usize, z: usize|
                x < dim && y < dim && z < dim implies call_ensures(
                generator,
                (x, y, z),
                #[trigger] geometry@.mass[0][cell_offset(dim as nat, x as int, y as int, z as int)],
            ) by {
                assert(source_1.field().cell(x as int, y as int, z as int) == geometry@.mass[0][cell_offset(
                    dim as nat,
                    x as int,
                    y as int,
                    z as int,
                )]);
            }
        }
        geometry
    }

    /// The first half of a step. Where the laser is on, heats its line in the
    /// temperature of the generation that the step writes, and in no other
    /// buffer; then binds the kernel's arguments for this step and hands the
    /// generation to be written to the device, the heated temperature with
    /// it. Returns the step for the caller to carry out; its results go to
    /// [`GeometryGen::synchronize`].
    ///
    /// While a step is in flight nothing changes and `None` is returned.
    pub fn fixed_update(&mut self) -> (step: Option<Step>)
        requires
            old(self).wf(),
        ensures
            final(self).wf(),
            final(self)@ == old(self)@.begun(),
            match step {
                Some(s) => {
                    &&& old(self)@.in_flight is None
                    &&& s.dispatch.args@ == kernel_args(old(self)@.frame_count as nat)
                    &&& s.dispatch.extent == (
                        old(self)@.dim as usize,
                        old(self)@.dim as usize,
                        old(self)@.dim as usize,
                    )
                    &&& s.dispatch.readback@ == readback(old(self)@.frame_count as nat)
                    &&& match s.heated {
                        Some(temperature) => old(self)@.laser && temperature@ == heated(
                            old(self)@.temperature[old(self)@.target()],
                            old(self)@.dim,
                        ),
                        None => !old(self)@.laser,
                    }
                },
                None => old(self)@.in_flight is Some,
            },
    {
        if !self.coupling.is_idle() {
            return None;
        }
        let heated = if self.laser {
            if write_index(self.frame_count) == 0 {
                heat(&mut self.temperature_0, self.dim);
                Some(flatten(&self.temperature_0))
            } else {
                heat(&mut self.temperature_1, self.dim);
                Some(flatten(&self.temperature_1))
            }
        } else {
            None
        };
        // The plan of the kernel run for the liquid simulation
        let plan = call(&mut self.coupling, self.frame_count);
        proof {
            assert(self@.temperature =~= old(self)@.begun().temperature);
            assert(self@.mass =~= old(self)@.begun().mass);
            assert(self@.flow =~= old(self)@.begun().flow);
        }
        match plan {
            Some(dispatch) => Some(Step { dispatch, heated }),
            None => None,
        }
    }

    /// The second half of a step: stores what the kernel wrote as the
    /// generation that the step was to write, takes that generation back for
    /// the host and counts the step. The generation that the step read is
    /// not touched.
    ///
    /// Results are refused, and nothing changes, where no step is in flight
    /// or where one of them does not have the length of its buffers.
    pub fn synchronize(&mut self, mass: &[u32], flow: &[u32], temperature: &[u32]) -> (stored:
        Result<(), StepError>)
        requires
            old(self).wf(),
        ensures
            final(self).wf(),
            final(self)@ == old(self)@.completed(mass@, flow@, temperature@),
            match stored {
                Ok(_) => old(self)@.refusal(mass@, flow@, temperature@) is None,
                Err(e) => old(self)@.refusal(mass@, flow@, temperature@) == Some(e),
            },
    {
        if self.coupling.is_idle() {
            return Err(StepError::NotInFlight);
        }
        proof {
            lemma_flow_fits(self.dim);
        }
        let cells = self.dim * self.dim * self.dim;
        if mass.len() != cells {
            return Err(StepError::Length(Quantity::Mass));
        }
        if flow.len() != FLOW_COMPONENTS * cells {
            return Err(StepError::Length(Quantity::Flow));
        }
        if temperature.len() != cells {
            return Err(StepError::Length(Quantity::Temperature));
        }
        proof {
            assert(volume((self.dim as nat, self.dim as nat, (3 * self.dim) as nat)) == 3 * cube(
                self.dim as nat,
            )) by (nonlinear_arith);
        }
        if write_index(self.frame_count) == 0 {
            self.source_0.inner_mut().assign(mass);
            overwrite(&mut self.flow_0, flow);
            overwrite(&mut self.temperature_0, temperature);
        } else {
            self.source_1.inner_mut().assign(mass);
            overwrite(&mut self.flow_1, flow);
            overwrite(&mut self.temperature_1, temperature);
        }
        self.coupling.release();
        self.frame_count = if self.frame_count == usize::MAX {
            0
        } else {
            self.frame_count + 1
        };
        proof {
            let after = old(self)@.completed(mass@, flow@, temperature@);
            assert(self@.mass =~= after.mass);
            assert(self@.flow =~= after.flow);
            assert(self@.temperature =~= after.temperature);
        }
        Ok(())
    }

    /// The source that the surface is to be extracted from: the mass in the
    /// generation that the last completed step wrote, with the spacing of
    /// its samples. It is never the generation that a step in flight is
    /// writing.
    pub fn update_vbo(&self) -> (source: &GradientSource)
        requires
            self.wf(),
        ensures
            source.wf(),
            source.field().side() == self@.dim,
            source.field()@ == self@.mass[self@.latest()],
            source.spacing() == cell_spacing(self@.dim),
            self@.in_flight != Some(self@.latest() as usize),
    {
        // Get the latest buffer
        if read_index(self.frame_count) == 0 {
            &self.source_0
        } else {
            &self.source_1
        }
    }

    /// A copy of one of the six host buffers, or `None` where there is no
    /// such generation or where a step in flight is writing it.
    pub fn host_buffer(&self, id: BufferId) -> (buffer: Option<Vec<u32>>)
        requires
            self.wf(),
        ensures
            match buffer {
                Some(values) => {
                    &&& id.generation < 2
                    &&& self@.in_flight != Some(id.generation)
                    &&& values@ == match id.quantity {
                        Quantity::Mass => self@.mass[id.generation as int],
                        Quantity::Flow => self@.flow[id.generation as int],
                        Quantity::Temperature => self@.temperature[id.generation as int],
                    }
                },
                None => id.generation >= 2 || self@.in_flight == Some(id.generation),
            },
    {
        if id.generation >= 2 {
            return None;
        }
        match self.coupling.ownership(id.generation) {
            Ownership::DeviceOwned => {
                return None;
            },
            Ownership::HostOwned => {},
        }
        let first = id.generation == 0;
        Some(
            match id.quantity {
                Quantity::Mass => if first {
                    self.source_0.inner().into_slice()
                } else {
                    self.source_1.inner().into_slice()
                },
                Quantity::Flow => if first {
                    flatten(&self.flow_0)
                } else {
                    flatten(&self.flow_1)
                },
                Quantity::Temperature => if first {
                    flatten(&self.temperature_0)
                } else {
                    flatten(&self.temperature_1)
                },
            },
        )
    }

    pub fn explode(&mut self, set: bool)
        ensures
            final(self)@ == (Pipeline { laser: set, ..old(self)@ }),
            old(self).wf() ==> final(self).wf(),
    {
        self.laser = set;
    }

    /// The number of cells along each axis.
    pub fn dim(&self) -> (dim: usize)
        ensures
            dim == self@.dim,
    {
        self.dim
    }

    /// The number of steps that have been completed.
    pub fn frame_count(&self) -> (n: usize)
        ensures
            n == self@.frame_count,
    {
        self.frame_count
    }
}

/// A side whose flow buffer can be held is small: three times the side and
/// the cube of the side are far from the end of `usize`.
proof fn lemma_flow_fits(dim: usize)
    requires
        12 * (dim * dim * dim) <= isize::MAX,
    ensures
        dim < 0x20_0000,
        dim * dim <= usize::MAX,
        dim * dim * dim <= usize::MAX,
        3 <= dim ==> 0 < dim * dim * dim,
        3 * (dim * dim * dim) <= usize::MAX,
        4 * (dim * dim * dim) <= isize::MAX,
        0 < dim ==> 4 * (dim * dim * (3 * dim)) <= isize::MAX,
        dim * dim * (3 * dim) == 3 * (dim * dim * dim),
{
    assert(dim < 0x20_0000) by (nonlinear_arith)
        requires
            12 * (dim * dim * dim) <= 0x7FFF_FFFF_FFFF_FFFF,
    ;
    assert(dim * dim * (3 * dim) == 3 * (dim * dim * dim)) by (nonlinear_arith);
    assert(0 <= dim * dim <= dim * dim * dim) by (nonlinear_arith);
    assert(3 <= dim ==> 0 < dim * dim * dim) by (nonlinear_arith);
}

} // verus!
