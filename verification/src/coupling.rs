//! The coupling between the double-buffered host arrays and the compute
//! kernel: which buffer the kernel reads, which it writes, and who owns each
//! generation while a step is in flight.
//!
//! The device work itself is done by the caller. This module decides what is
//! to be done and keeps the books: [`bind`] checks the host arrays and lists
//! the kernel's initial arguments, [`call`] hands out the plan of one step and
//! marks the written generation as owned by the device, and
//! [`Coupling::release`] takes it back once the results are on the host.

use vstd::prelude::*;

verus! {

/// One of the three simulated quantities.
#[derive(Clone, Copy, Debug, PartialEq, Eq, Structural)]
pub enum Quantity {
    Mass,
    Flow,
    Temperature,
}

/// One of the six buffers: a quantity in one of its two generations.
#[derive(Clone, Copy, Debug, PartialEq, Eq, Structural)]
pub struct BufferId {
    pub quantity: Quantity,
    pub generation: usize,
}

/// Who may touch a generation of the host arrays.
#[derive(Clone, Copy, Debug, PartialEq, Eq, Structural)]
pub enum Ownership {
    /// No step is using it: host logic may read and write it.
    HostOwned,
    /// A step in flight is writing it: nothing on the host may look at it.
    DeviceOwned,
}

/// Why [`bind`] refused a set of host arrays.
#[derive(Clone, Copy, Debug, PartialEq, Eq, Structural)]
pub enum BindError {
    /// The grid has no cells, or its cell count does not fit the machine.
    Extent,
    /// The named host array does not have the length its quantity calls for.
    Length(BufferId),
}

/// The number of scalars per cell in a flow buffer.
pub const FLOW_COMPONENTS: usize = 3;

/// The generation that step `frame_count` reads.
pub open spec fn read_generation(frame_count: nat) -> nat {
    frame_count % 2
}

/// The generation that step `frame_count` writes.
pub open spec fn write_generation(frame_count: nat) -> nat {
    (frame_count + 1) % 2
}

/// The kernel's six positional arguments for step `frame_count`: the three
/// buffers it reads, then the three it writes, each as mass, flow,
/// temperature.
pub open spec fn kernel_args(frame_count: nat) -> Seq<BufferId> {
    let r = read_generation(frame_count) as usize;
    let w = write_generation(frame_count) as usize;
    seq![
        BufferId { quantity: Quantity::Mass, generation: r },
        BufferId { quantity: Quantity::Flow, generation: r },
        BufferId { quantity: Quantity::Temperature, generation: r },
        BufferId { quantity: Quantity::Mass, generation: w },
        BufferId { quantity: Quantity::Flow, generation: w },
        BufferId { quantity: Quantity::Temperature, generation: w },
    ]
}

/// The buffers that are read back to the host after step `frame_count`, in
/// the order in which they are read back.
pub open spec fn readback(frame_count: nat) -> Seq<BufferId> {
    kernel_args(frame_count).subrange(3, 6)
}

/// Successive steps target opposite generations: what one step reads the
/// next one writes, and what it writes the next one reads. Within a step the
/// two differ, and each is 0 or 1.
pub proof fn lemma_generations_alternate(frame_count: nat)
    ensures
        read_generation(frame_count) == write_generation(frame_count + 1),
        write_generation(frame_count) == read_generation(frame_count + 1),
        read_generation(frame_count) != write_generation(frame_count),
        read_generation(frame_count) < 2,
        write_generation(frame_count) < 2,
{
}

/// From one step to the next the kernel's read and written arguments change
/// places: the three buffers that step `frame_count` reads are the three that
/// step `frame_count + 1` writes, and the other way round.
pub proof fn lemma_kernel_args_swap(frame_count: nat)
    ensures
        kernel_args(frame_count + 1).subrange(0, 3) == kernel_args(frame_count).subrange(3, 6),
        kernel_args(frame_count + 1).subrange(3, 6) == kernel_args(frame_count).subrange(0, 3),
{
    lemma_generations_alternate(frame_count);
    assert(kernel_args(frame_count + 1).subrange(0, 3) =~= kernel_args(frame_count).subrange(
        3,
        6,
    ));
    assert(kernel_args(frame_count + 1).subrange(3, 6) =~= kernel_args(frame_count).subrange(
        0,
        3,
    ));
}

/// The generation that step `frame_count` reads.
pub fn read_index(frame_count: usize) -> (g: usize)
    ensures
        g == read_generation(frame_count as nat),
{
    frame_count % 2
}

/// The generation that step `frame_count` writes.
pub fn write_index(frame_count: usize) -> (g: usize)
    ensures
        g == write_generation(frame_count as nat),
{
    1 - frame_count % 2
}

/// The number of cells of a grid with the given axis lengths.
pub open spec fn extent_cells(dims: (usize, usize, usize)) -> nat {
    (dims.0 * dims.1 * dims.2) as nat
}

/// The first fault that [`bind`] finds, if any: an extent without cells or
/// beyond the machine's reach, else the first host array of the wrong length,
/// taken as mass, flow, temperature and, within each, generation 0 before 1.
pub open spec fn bind_fault(
    mass_lens: (nat, nat),
    flow_lens: (nat, nat),
    temp_lens: (nat, nat),
    dims: (usize, usize, usize),
) -> Option<BindError> {
    let n = extent_cells(dims);
    if n == 0 || n > usize::MAX {
        Some(BindError::Extent)
    } else if mass_lens.0 != n {
        Some(BindError::Length(BufferId { quantity: Quantity::Mass, generation: 0 }))
    } else if mass_lens.1 != n {
        Some(BindError::Length(BufferId { quantity: Quantity::Mass, generation: 1 }))
    } else if flow_lens.0 != 3 * n {
        Some(BindError::Length(BufferId { quantity: Quantity::Flow, generation: 0 }))
    } else if flow_lens.1 != 3 * n {
        Some(BindError::Length(BufferId { quantity: Quantity::Flow, generation: 1 }))
    } else if temp_lens.0 != n {
        Some(BindError::Length(BufferId { quantity: Quantity::Temperature, generation: 0 }))
    } else if temp_lens.1 != n {
        Some(BindError::Length(BufferId { quantity: Quantity::Temperature, generation: 1 }))
    } else {
        None
    }
}

/// What the host knows of a bound kernel: the extent it runs over, the
/// buffers that its six arguments name, and the generation, if any, that a
/// step in flight has taken from the host.
pub struct Coupling {
    dims: (usize, usize, usize),
    args: [BufferId; 6],
    in_flight: Option<usize>,
}

/// The plan of one step, for the caller to carry out in this order: set the
/// kernel's arguments, run the kernel over the extent, then read the written
/// buffers back.
pub struct Dispatch {
    /// The kernel's six positional arguments.
    pub args: [BufferId; 6],
    /// The axis lengths of the grid that the kernel runs over.
    pub extent: (usize, usize, usize),
    /// The buffers to read back to the host once the kernel has run.
    pub readback: [BufferId; 3],
}

impl Coupling {
    /// The axis lengths of the grid.
    pub closed spec fn dims(self) -> (usize, usize, usize) {
        self.dims
    }

    /// The buffers that the kernel's arguments name at present.
    pub closed spec fn args(self) -> Seq<BufferId> {
        self.args@
    }

    /// The generation that a step in flight has taken from the host.
    pub closed spec fn in_flight(self) -> Option<usize> {
        self.in_flight
    }

    /// At most one generation is away, and it is one of the two.
    pub open spec fn wf(self) -> bool {
        &&& self.in_flight() matches Some(g) ==> g < 2
        &&& 0 < extent_cells(self.dims()) <= usize::MAX
    }

    /// Who owns the given generation.
    pub open spec fn owner_of(self, generation: usize) -> Ownership {
        if self.in_flight() == Some(generation) {
            Ownership::DeviceOwned
        } else {
            Ownership::HostOwned
        }
    }

    /// The axis lengths of the grid.
    pub fn extent(&self) -> (d: (usize, usize, usize))
        ensures
            d == self.dims(),
    {
        self.dims
    }

    /// The buffers that the kernel's arguments name at present.
    pub fn arguments(&self) -> (args: [BufferId; 6])
        ensures
            args@ == self.args(),
    {
        self.args
    }

    /// Who owns the given generation.
    pub fn ownership(&self, generation: usize) -> (o: Ownership)
        ensures
            o == self.owner_of(generation),
    {
        match self.in_flight {
            Some(g) => if g == generation {
                Ownership::DeviceOwned
            } else {
                Ownership::HostOwned
            },
            None => Ownership::HostOwned,
        }
    }

    /// Whether no step is in flight.
    pub fn is_idle(&self) -> (idle: bool)
        ensures
            idle == (self.in_flight() is None),
    {
        self.in_flight.is_none()
    }

    /// Takes the generation in flight back for the host, once its results have
    /// been read back. Returns that generation, or `None`, changing nothing,
    /// where no step was in flight.
    pub fn release(&mut self) -> (returned: Option<usize>)
        ensures
            returned == old(self).in_flight(),
            final(self).in_flight() is None,
            final(self).dims() == old(self).dims(),
            final(self).args() == old(self).args(),
            old(self).wf() ==> final(self).wf(),
    {
        let g = self.in_flight;
        self.in_flight = None;
        g
    }
}

/// At no time are both generations away: with a step in flight exactly one
/// of the two is the device's, and with none in flight both are the host's.
pub proof fn lemma_one_generation_in_flight(coupling: Coupling)
    requires
        coupling.wf(),
    ensures
        coupling.in_flight() is Some ==> (coupling.owner_of(0) == Ownership::DeviceOwned) != (
        coupling.owner_of(1) == Ownership::DeviceOwned),
        coupling.in_flight() is None ==> coupling.owner_of(0) == Ownership::HostOwned
            && coupling.owner_of(1) == Ownership::HostOwned,
{
}

/// The product of the three axis lengths, where it is a positive `usize`.
fn cell_count(dims: (usize, usize, usize)) -> (n: Option<usize>)
    ensures
        match n {
            Some(n) => n == extent_cells(dims) && n > 0,
            None => extent_cells(dims) == 0 || extent_cells(dims) > usize::MAX,
        },
{
    if dims.0 == 0 || dims.1 == 0 || dims.2 == 0 {
        assert(extent_cells(dims) == 0) by (nonlinear_arith)
            requires
                dims.0 == 0 || dims.1 == 0 || dims.2 == 0,
        ;
        return None;
    }
    match dims.0.checked_mul(dims.1) {
        None => {
            assert(extent_cells(dims) > usize::MAX) by (nonlinear_arith)
                requires
                    dims.0 * dims.1 > usize::MAX,
                    dims.2 >= 1,
            ;
            None
        },
        Some(plane) => match plane.checked_mul(dims.2) {
            None => None,
            Some(n) => {
                assert(n > 0) by (nonlinear_arith)
                    requires
                        n == dims.0 * dims.1 * dims.2,
                        dims.0 > 0,
                        dims.1 > 0,
                        dims.2 > 0,
                ;
                Some(n)
            },
        },
    }
}

/// Whether `len` is `factor` times `n`.
fn is_multiple(len: usize, factor: usize, n: usize) -> (b: bool)
    ensures
        b == (len == factor * n),
{
    match n.checked_mul(factor) {
        Some(want) => {
            assert(n * factor == factor * n) by (nonlinear_arith);
            len == want
        },
        None => {
            assert(n * factor == factor * n) by (nonlinear_arith);
            false
        },
    }
}

/// Checks the six host arrays against the grid's extent and binds them to the
/// kernel's arguments: generation 0 of mass, flow and temperature to the
/// three arguments that are read, generation 1 to the three that are written.
///
/// Mass and temperature hold one scalar per cell, flow three. The coupling
/// starts with both generations owned by the host.
pub fn bind(
    mass_bufs: [&[u32]; 2],
    flow_bufs: [&[u32]; 2],
    temp_bufs: [&[u32]; 2],
    dims: (usize, usize, usize),
) -> (bound: Result<Coupling, BindError>)
    ensures
        match bound {
            Ok(c) => {
                &&& bind_fault(
                    (mass_bufs[0]@.len(), mass_bufs[1]@.len()),
                    (flow_bufs[0]@.len(), flow_bufs[1]@.len()),
                    (temp_bufs[0]@.len(), temp_bufs[1]@.len()),
                    dims,
                ) is None
                &&& c.wf()
                &&& c.dims() == dims
                &&& c.args() == kernel_args(0)
                &&& c.in_flight() is None
            },
            Err(e) => bind_fault(
                (mass_bufs[0]@.len(), mass_bufs[1]@.len()),
                (flow_bufs[0]@.len(), flow_bufs[1]@.len()),
                (temp_bufs[0]@.len(), temp_bufs[1]@.len()),
                dims,
            ) == Some(e),
        },
{
    let n = match cell_count(dims) {
        Some(n) => n,
        None => {
            return Err(BindError::Extent);
        },
    };
    if mass_bufs[0].len() != n {
        return Err(BindError::Length(BufferId { quantity: Quantity::Mass, generation: 0 }));
    }
    if mass_bufs[1].len() != n {
        return Err(BindError::Length(BufferId { quantity: Quantity::Mass, generation: 1 }));
    }
    if !is_multiple(flow_bufs[0].len(), FLOW_COMPONENTS, n) {
        return Err(BindError::Length(BufferId { quantity: Quantity::Flow, generation: 0 }));
    }
    if !is_multiple(flow_bufs[1].len(), FLOW_COMPONENTS, n) {
        return Err(BindError::Length(BufferId { quantity: Quantity::Flow, generation: 1 }));
    }
    if temp_bufs[0].len() != n {
        return Err(BindError::Length(BufferId { quantity: Quantity::Temperature, generation: 0 }));
    }
    if temp_bufs[1].len() != n {
        return Err(BindError::Length(BufferId { quantity: Quantity::Temperature, generation: 1 }));
    }
    let args = argument_list(0);
    Ok(Coupling { dims, args, in_flight: None })
}

/// The kernel's six arguments for step `frame_count`.
fn argument_list(frame_count: usize) -> (args: [BufferId; 6])
    ensures
        args@ == kernel_args(frame_count as nat),
{
    let r = read_index(frame_count);
    let w = write_index(frame_count);
    let args = [
        BufferId { quantity: Quantity::Mass, generation: r },
        BufferId { quantity: Quantity::Flow, generation: r },
        BufferId { quantity: Quantity::Temperature, generation: r },
        BufferId { quantity: Quantity::Mass, generation: w },
        BufferId { quantity: Quantity::Flow, generation: w },
        BufferId { quantity: Quantity::Temperature, generation: w },
    ];
    assert(args@ =~= kernel_args(frame_count as nat));
    args
}

/// Begins step `frame_count`: points the kernel's arguments at the
/// generation to read and the generation to write, and hands the written
/// generation to the device until [`Coupling::release`].
///
/// Returns the plan of the step. Where a step is already in flight nothing
/// changes and `None` is returned.
pub fn call(coupling: &mut Coupling, frame_count: usize) -> (plan: Option<Dispatch>)
    ensures
        old(coupling).wf() ==> final(coupling).wf(),
        final(coupling).dims() == old(coupling).dims(),
        match plan {
            Some(d) => {
                &&& old(coupling).in_flight() is None
                &&& d.args@ == kernel_args(frame_count as nat)
                &&& d.extent == old(coupling).dims()
                &&& d.readback@ == readback(frame_count as nat)
                &&& final(coupling).args() == kernel_args(frame_count as nat)
                &&& final(coupling).in_flight() == Some(
                    write_generation(frame_count as nat) as usize,
                )
            },
            None => old(coupling).in_flight() is Some && *final(coupling) == *old(coupling),
        },
{
    if coupling.in_flight.is_some() {
        return None;
    }
    let w = write_index(frame_count);
    let args = argument_list(frame_count);
    let written = [args[3], args[4], args[5]];
    assert(written@ =~= readback(frame_count as nat));
    coupling.args = args;
    coupling.in_flight = Some(w);
    Some(Dispatch { args, extent: coupling.dims, readback: written })
}

} // verus!
