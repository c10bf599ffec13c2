//! A cubic grid of single-precision values, sampled by coordinates in the
//! unit cube.
//!
//! Values and coordinates are the 32-bit patterns of single-precision
//! numbers (see [`crate::binary32`]): the field stores and hands out
//! patterns and never computes with the numbers they stand for, except to
//! find the cell that a coordinate falls into.

use vstd::prelude::*;
use crate::binary32::{
    is_finite,
    lemma_unit_interval_within_factor,
    scale_to_index,
    scaled_floor,
    EXACT_LIMIT,
    ONE,
    ZERO,
};
use crate::grid::{
    at,
    at_mut,
    duplicate,
    filled,
    flatten,
    grid_cells,
    grid_shape,
    lemma_offset_end,
    lemma_offset_in_volume,
    lemma_offset_injective,
    lemma_offset_plane_end,
    lemma_offset_row_end,
    lemma_offset_start,
    offset,
    overwrite,
    put,
    volume,
    Grid,
};

verus! {

/// By how much the factor between a coordinate in the unit interval and an
/// index falls short of the side of the grid.
///
/// A coordinate `c` falls into the cell `floor((side - INDEX_MARGIN) * c)`.
/// The margin makes up for the bias of the surface extraction that samples
/// the field; it was found by trial, and nothing shows that it is right for
/// every side. The centre of the field and the spacing of its samples are
/// derived from the same span, [`sample_span`].
pub const INDEX_MARGIN: usize = 2;

/// The span of indices that the unit interval is stretched over.
pub open spec fn span_of(side: nat) -> nat {
    (side - INDEX_MARGIN) as nat
}

/// The span of indices that the unit interval is stretched over: the one
/// place where the margin enters.
pub fn sample_span(side: usize) -> (span: usize)
    requires
        side >= INDEX_MARGIN,
    ensures
        span == span_of(side as nat),
{
    side - INDEX_MARGIN
}

/// A fraction of two whole numbers, standing for the number
/// `numerator / denominator`.
#[derive(Clone, Copy, Debug, PartialEq, Eq, Structural)]
pub struct Ratio {
    pub numerator: usize,
    pub denominator: usize,
}

/// The place of the cell `(x, y, z)` among the cells of a field: `x` runs
/// fastest, `z` slowest.
pub open spec fn cell_offset(side: nat, x: int, y: int, z: int) -> int {
    offset((side, side, side), z, y, x)
}

/// A 3D scalar field over the unit cube: one value for each cell of a cubic
/// grid.
pub struct ScalarField {
    elems: Grid,
    dim: usize,
}

impl View for ScalarField {
    type V = Seq<u32>;

    /// The values of all cells, `x` running fastest and `z` slowest.
    closed spec fn view(&self) -> Seq<u32> {
        grid_cells(self.elems)
    }
}

impl ScalarField {
    /// The number of cells along each axis.
    pub closed spec fn side(self) -> nat {
        self.dim as nat
    }

    /// The array is a cube of this side, of a size that the machine can hold.
    pub closed spec fn well_stored(self) -> bool {
        &&& grid_shape(self.elems) == (self.dim as nat, self.dim as nat, self.dim as nat)
        &&& 4 * (self.dim * self.dim * self.dim) <= isize::MAX
        &&& self.dim < EXACT_LIMIT
    }

    /// The field has at least three cells along each axis and holds exactly
    /// `side³` values.
    pub open spec fn wf(self) -> bool {
        &&& 3 <= self.side()
        &&& self@.len() == self.side() * self.side() * self.side()
        &&& self.well_stored()
    }

    /// The value of the cell `(x, y, z)`.
    pub open spec fn cell(self, x: int, y: int, z: int) -> u32 {
        self@[cell_offset(self.side(), x, y, z)]
    }

    /// The index along one axis of the cell that a coordinate falls into:
    /// the coordinate times the span, cut off to a whole number and clamped
    /// to the last index.
    pub open spec fn axis_index(self, coordinate: u32) -> int {
        scaled_floor(coordinate, span_of(self.side()), (self.side() - 1) as nat) as int
    }

    /// The value that the field has at the coordinates `(x, y, z)`.
    pub open spec fn value_at(self, x: u32, y: u32, z: u32) -> u32 {
        self.cell(self.axis_index(x), self.axis_index(y), self.axis_index(z))
    }

    /// Whether a field of this side can be held: the side is at least 3 and
    /// the bytes of its values can be counted in `isize`.
    pub open spec fn holds(dim: usize) -> bool {
        3 <= dim && 4 * (dim * dim * dim) <= isize::MAX
    }

    /// Whether a field of this side can be held, see [`ScalarField::holds`].
    pub fn supported(dim: usize) -> (ok: bool)
        ensures
            ok == Self::holds(dim),
    {
        if dim < 3 {
            return false;
        }
        let limit: usize = isize::MAX as usize / 4;
        match dim.checked_mul(dim) {
            None => {
                assert(dim * dim * dim >= dim * dim) by (nonlinear_arith)
                    requires
                        dim >= 1,
                ;
                false
            },
            Some(plane) => match plane.checked_mul(dim) {
                None => false,
                Some(cells) => cells <= limit,
            },
        }
    }

    /// Builds a field of side `dim`, taking the value of each cell from
    /// `generator`, which is called once for every cell with the cell's
    /// indices `(x, y, z)`: for `z` from 0 up, within that for `y` from 0 up,
    /// and within that for `x` from 0 up.
    pub fn new<F: Fn(usize, usize, usize) -> u32>(dim: usize, generator: F) -> (field: ScalarField)
        requires
            Self::holds(dim),
            forall|x: usize, y: usize, z: usize|
                x < dim && y < dim && z < dim ==> call_requires(generator, (x, y, z)),
        ensures
            field.wf(),
            field.side() == dim,
            forall|x: usize, y: usize, z: usize|
                x < dim && y < dim && z < dim ==> call_ensures(
                    generator,
                    (x, y, z),
                    #[trigger] field.cell(x as int, y as int, z as int),
                ),
    {
        proof {
            lemma_side_is_exact(dim);
        }
        let mut elems = filled(dim, dim, dim, 0);
        let ghost shape = (dim as nat, dim as nat, dim as nat);
        let ghost mut n: int = 0;
        proof {
            lemma_offset_start(shape);
        }
        let mut z: usize = 0;
        while z < dim
            invariant
                z <= dim,
                shape == (dim as nat, dim as nat, dim as nat),
                grid_shape(elems) == shape,
                grid_cells(elems).len() == volume(shape),
                n == offset(shape, z as int, 0, 0),
                forall|x: usize, y: usize, z: usize|
                    x < dim && y < dim && z < dim ==> call_requires(generator, (x, y, z)),
                forall|x2: usize, y2: usize, z2: usize|
                    x2 < dim && y2 < dim && z2 < dim && offset(
                        shape,
                        z2 as int,
                        y2 as int,
                        x2 as int,
                    ) < n ==> call_ensures(
                        generator,
                        (x2, y2, z2),
                        #[trigger] grid_cells(elems)[offset(shape, z2 as int, y2 as int, x2 as int)],
                    ),
            decreases dim - z,
        {
            let mut y: usize = 0;
            while y < dim
                invariant
                    z < dim,
                    y <= dim,
                    shape == (dim as nat, dim as nat, dim as nat),
                    grid_shape(elems) == shape,
                    grid_cells(elems).len() == volume(shape),
                    n == offset(shape, z as int, y as int, 0),
                    forall|x: usize, y: usize, z: usize|
                        x < dim && y < dim && z < dim ==> call_requires(generator, (x, y, z)),
                    forall|x2: usize, y2: usize, z2: usize|
                        x2 < dim && y2 < dim && z2 < dim && offset(
                            shape,
                            z2 as int,
                            y2 as int,
                            x2 as int,
                        ) < n ==> call_ensures(
                            generator,
                            (x2, y2, z2),
                            #[trigger] grid_cells(elems)[offset(
                                shape,
                                z2 as int,
                                y2 as int,
                                x2 as int,
                            )],
                        ),
                decreases dim - y,
            {
                let mut x: usize = 0;
                while x < dim
                    invariant
                        z < dim,
                        y < dim,
                        x <= dim,
                        shape == (dim as nat, dim as nat, dim as nat),
                        grid_shape(elems) == shape,
                        grid_cells(elems).len() == volume(shape),
                        n == offset(shape, z as int, y as int, x as int),
                        forall|x: usize, y: usize, z: usize|
                            x < dim && y < dim && z < dim ==> call_requires(
                                generator,
                                (x, y, z),
                            ),
                        forall|x2: usize, y2: usize, z2: usize|
                            x2 < dim && y2 < dim && z2 < dim && offset(
                                shape,
                                z2 as int,
                                y2 as int,
                                x2 as int,
                            ) < n ==> call_ensures(
                                generator,
                                (x2, y2, z2),
                                #[trigger] grid_cells(elems)[offset(
                                    shape,
                                    z2 as int,
                                    y2 as int,
                                    x2 as int,
                                )],
                            ),
                    decreases dim - x,
                {
                    let elem = generator(x, y, z);
                    let ghost before = grid_cells(elems);
                    put(&mut elems, z, y, x, elem);
                    proof {
                        lemma_offset_in_volume(shape, z as int, y as int, x as int);
                        assert forall|x2: usize, y2: usize, z2: usize|
                            x2 < dim && y2 < dim && z2 < dim && offset(
                                shape,
                                z2 as int,
                                y2 as int,
                                x2 as int,
                            ) < n + 1 implies call_ensures(
                            generator,
                            (x2, y2, z2),
                            #[trigger] grid_cells(elems)[offset(
                                shape,
                                z2 as int,
                                y2 as int,
                                x2 as int,
                            )],
                        ) by {
                            let m = offset(shape, z2 as int, y2 as int, x2 as int);
                            lemma_offset_in_volume(shape, z2 as int, y2 as int, x2 as int);
                            if m == n {
                                lemma_offset_injective(
                                    shape,
                                    z2 as int,
                                    y2 as int,
                                    x2 as int,
                                    z as int,
                                    y as int,
                                    x as int,
                                );
                            } else {
                                assert(grid_cells(elems)[m] == before[m]);
                            }
                        }
                        n = n + 1;
                    }
                    x += 1;
                }
                proof {
                    lemma_offset_row_end(shape, z as int, y as int);
                }
                y += 1;
            }
            proof {
                lemma_offset_plane_end(shape, z as int);
            }
            z += 1;
        }
        let field = ScalarField { elems, dim };
        proof {
            lemma_offset_end(shape);
            assert forall|x: usize, y: usize, z: usize|
                x < dim && y < dim && z < dim implies call_ensures(
                generator,
                (x, y, z),
                #[trigger] field.cell(x as int, y as int, z as int),
            ) by {
                lemma_offset_in_volume(shape, z as int, y as int, x as int);
            }
        }
        field
    }

    pub fn dim(&self) -> (dim: usize)
        ensures
            dim == self.side(),
    {
        self.dim
    }

    /// The coordinate, the same on every axis, of the field's centre: half
    /// the span, over the side.
    pub fn center(&self) -> (center: Ratio)
        requires
            self.wf(),
        ensures
            center.numerator == span_of(self.side()),
            center.denominator == 2 * self.side(),
            0 < center.denominator,
            2 * center.numerator <= center.denominator,
    {
        // The span where the side less one would be expected: see INDEX_MARGIN.
        Ratio { numerator: sample_span(self.dim), denominator: 2 * self.dim }
    }

    /// The values of all cells, `x` running fastest and `z` slowest.
    pub fn into_slice(&self) -> (cells: Vec<u32>)
        ensures
            cells@ == self@,
    {
        flatten(&self.elems)
    }

    /// The value at the coordinates `v = [x, y, z]`.
    pub fn elem(&self, v: &[u32; 3]) -> (value: u32)
        requires
            self.wf(),
        ensures
            value == self.value_at(v[0], v[1], v[2]),
    {
        let idx = self.resolve_index3d(v);
        at(&self.elems, idx.0, idx.1, idx.2)
    }

    /// The value at the coordinates `v = [x, y, z]`, to be written: what is
    /// written becomes the value of the cell that the coordinates fall into,
    /// and no other cell changes.
    pub fn elem_mut(&mut self, v: &[u32; 3]) -> (value: &mut u32)
        requires
            old(self).wf(),
        ensures
            *value == old(self).value_at(v[0], v[1], v[2]),
            final(self).wf(),
            final(self).side() == old(self).side(),
            final(self)@ == old(self)@.update(
                cell_offset(
                    old(self).side(),
                    old(self).axis_index(v[0]),
                    old(self).axis_index(v[1]),
                    old(self).axis_index(v[2]),
                ),
                *final(value),
            ),
    {
        let idx = self.resolve_index3d(v);
        proof {
            lemma_offset_in_volume(
                grid_shape(self.elems),
                idx.0 as int,
                idx.1 as int,
                idx.2 as int,
            );
        }
        at_mut(&mut self.elems, idx.0, idx.1, idx.2)
    }

    /// Replaces the values of all cells by `values`, cell by cell in the
    /// order of [`ScalarField::into_slice`].
    pub fn assign(&mut self, values: &[u32])
        requires
            old(self).wf(),
            values@.len() == old(self)@.len(),
        ensures
            final(self).wf(),
            final(self).side() == old(self).side(),
            final(self)@ == values@,
    {
        proof {
            assert(volume(grid_shape(self.elems)) == self.dim * self.dim * self.dim);
        }
        overwrite(&mut self.elems, values);
    }

    /// The indices `(z, y, x)` of the cell that the coordinates
    /// `v = [x, y, z]` fall into.
    fn resolve_index3d(&self, v: &[u32; 3]) -> (idx: (usize, usize, usize))
        requires
            self.wf(),
        ensures
            idx.0 == self.axis_index(v[2]),
            idx.1 == self.axis_index(v[1]),
            idx.2 == self.axis_index(v[0]),
            idx.0 < self.side(),
            idx.1 < self.side(),
            idx.2 < self.side(),
    {
        // The span where the side would be expected makes up for the bias of
        // the surface extraction; the clamp keeps coordinates beyond the unit
        // interval inside the grid.
        let d = self.dim - 1;
        let span = sample_span(self.dim) as u32;
        let z_idx = scale_to_index(v[2], span, d);
        let y_idx = scale_to_index(v[1], span, d);
        let x_idx = scale_to_index(v[0], span, d);

        (z_idx, y_idx, x_idx)
    }

    /// The value that the field has at the coordinates `(x, y, z)`: that of
    /// the cell they fall into. Every pattern is accepted as a coordinate.
    pub fn sample(&self, x: u32, y: u32, z: u32) -> (value: u32)
        requires
            self.wf(),
        ensures
            value == self.value_at(x, y, z),
    {
        // The nearest cell below, without interpolation between cells.
        self.elem(&[x, y, z])
    }
}

impl Clone for ScalarField {
    fn clone(&self) -> (copy: ScalarField)
        ensures
            copy@ == self@,
            copy.side() == self.side(),
            self.wf() ==> copy.wf(),
    {
        ScalarField { elems: duplicate(&self.elems), dim: self.dim }
    }
}

/// Whatever patterns come as coordinates, also those of numbers beyond the
/// unit interval, of infinities and of NaNs, a sample reads a cell inside the
/// field; and where every cell holds a finite number, so is every sample.
pub proof fn lemma_sample_stays_in_field(field: ScalarField, x: u32, y: u32, z: u32)
    requires
        field.wf(),
    ensures
        0 <= field.axis_index(x) < field.side(),
        0 <= field.axis_index(y) < field.side(),
        0 <= field.axis_index(z) < field.side(),
        0 <= cell_offset(
            field.side(),
            field.axis_index(x),
            field.axis_index(y),
            field.axis_index(z),
        ) < field@.len(),
        (forall|n: int| 0 <= n < field@.len() ==> is_finite(#[trigger] field@[n])) ==> is_finite(
            field.value_at(x, y, z),
        ),
{
    let side = field.side();
    lemma_offset_in_volume(
        (side, side, side),
        field.axis_index(z),
        field.axis_index(y),
        field.axis_index(x),
    );
}

/// For coordinates in the unit interval the clamp to the last index decides
/// nothing: the pattern of every number from zero to one gives an index of
/// at most `side - 2`. Zero gives the first index, one gives `side - 2`.
pub proof fn lemma_unit_interval_needs_no_clamp(field: ScalarField, coordinate: u32)
    requires
        field.wf(),
        coordinate <= ONE,
    ensures
        field.axis_index(coordinate) <= field.side() - INDEX_MARGIN,
        field.axis_index(ZERO) == 0,
        field.axis_index(ONE) == field.side() - INDEX_MARGIN,
{
    let span = span_of(field.side());
    let last = (field.side() - 1) as nat;
    lemma_unit_interval_within_factor(coordinate, span, last);
    lemma_unit_interval_within_factor(ONE, span, last);
}

/// A side whose cube can be held is far below the whole numbers that single
/// precision cannot tell apart.
proof fn lemma_side_is_exact(dim: usize)
    requires
        4 * (dim * dim * dim) <= isize::MAX,
    ensures
        dim < EXACT_LIMIT,
{
    assert(dim < 0x100_0000) by (nonlinear_arith)
        requires
            4 * (dim * dim * dim) <= 0x7FFF_FFFF_FFFF_FFFF,
    ;
}

} // verus!
