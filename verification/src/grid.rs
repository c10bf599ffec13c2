//! Three-dimensional arrays of 32-bit words, stored in an `ndarray` array.
//!
//! What the array holds is known to the verifier only through the two names
//! [`grid_cells`] and [`grid_shape`] and through the contracts of the few
//! `ndarray` operations that this module wraps. Everything built on them is
//! proved.

use vstd::prelude::*;
use vstd::arithmetic::div_mod::lemma_fundamental_div_mod_converse;

verus! {

/// A three-dimensional array of 32-bit words.
///
/// The array type of `ndarray` is bounded by a trait of that crate and cannot
/// be declared to the verifier as it is, so it is held here, out of the
/// verifier's sight.
#[verifier::external_body]
pub struct Grid {
    array: ndarray::Array3<u32>,
}

/// The elements of a grid in logical order: the last index runs fastest.
pub uninterp spec fn grid_cells(g: Grid) -> Seq<u32>;

/// The lengths of the three axes of a grid.
pub uninterp spec fn grid_shape(g: Grid) -> (nat, nat, nat);

/// The number of elements of an array of the given shape.
pub open spec fn volume(shape: (nat, nat, nat)) -> nat {
    shape.0 * shape.1 * shape.2
}

/// Whether `(i, j, k)` is an index into an array of the given shape.
pub open spec fn in_bounds(shape: (nat, nat, nat), i: int, j: int, k: int) -> bool {
    0 <= i < shape.0 && 0 <= j < shape.1 && 0 <= k < shape.2
}

/// The place of the element `(i, j, k)` in the logical order.
pub open spec fn offset(shape: (nat, nat, nat), i: int, j: int, k: int) -> int {
    (i * shape.1 + j) * shape.2 + k
}

/// Every index in bounds has a place below the volume.
pub proof fn lemma_offset_in_volume(shape: (nat, nat, nat), i: int, j: int, k: int)
    requires
        in_bounds(shape, i, j, k),
    ensures
        0 <= offset(shape, i, j, k) < volume(shape),
{
    let row = i * shape.1 + j;
    assert(0 <= row && row + 1 <= shape.0 * shape.1) by (nonlinear_arith)
        requires
            row == i * shape.1 + j,
            0 <= i < shape.0,
            0 <= j < shape.1,
    ;
    assert(0 <= row * shape.2 + k && row * shape.2 + k < (shape.0 * shape.1) * shape.2)
        by (nonlinear_arith)
        requires
            0 <= row,
            row + 1 <= shape.0 * shape.1,
            0 <= k < shape.2,
    ;
}

/// Two indices in bounds with the same place are the same index.
pub proof fn lemma_offset_injective(
    shape: (nat, nat, nat),
    i: int,
    j: int,
    k: int,
    i2: int,
    j2: int,
    k2: int,
)
    requires
        in_bounds(shape, i, j, k),
        in_bounds(shape, i2, j2, k2),
        offset(shape, i, j, k) == offset(shape, i2, j2, k2),
    ensures
        i == i2,
        j == j2,
        k == k2,
{
    let at = offset(shape, i, j, k);
    let row = i * shape.1 + j;
    let row2 = i2 * shape.1 + j2;
    lemma_fundamental_div_mod_converse(at, shape.2 as int, row, k);
    lemma_fundamental_div_mod_converse(at, shape.2 as int, row2, k2);
    lemma_fundamental_div_mod_converse(row, shape.1 as int, i, j);
    lemma_fundamental_div_mod_converse(row, shape.1 as int, i2, j2);
}

/// The first element has the first place.
pub proof fn lemma_offset_start(shape: (nat, nat, nat))
    ensures
        offset(shape, 0, 0, 0) == 0,
{
    assert((0 * shape.1 + 0) * shape.2 + 0 == 0) by (nonlinear_arith);
}

/// Past the last element of a row comes the first of the next row.
pub proof fn lemma_offset_row_end(shape: (nat, nat, nat), i: int, j: int)
    ensures
        offset(shape, i, j, shape.2 as int) == offset(shape, i, j + 1, 0),
{
    assert((i * shape.1 + j) * shape.2 + shape.2 == (i * shape.1 + (j + 1)) * shape.2 + 0)
        by (nonlinear_arith);
}

/// Past the last row of a plane comes the first row of the next plane.
pub proof fn lemma_offset_plane_end(shape: (nat, nat, nat), i: int)
    ensures
        offset(shape, i, shape.1 as int, 0) == offset(shape, i + 1, 0, 0),
{
    assert((i * shape.1 + shape.1) * shape.2 + 0 == ((i + 1) * shape.1 + 0) * shape.2 + 0)
        by (nonlinear_arith);
}

/// Past the last plane the places have run through the whole volume.
pub proof fn lemma_offset_end(shape: (nat, nat, nat))
    ensures
        offset(shape, shape.0 as int, 0, 0) == volume(shape),
{
    assert((shape.0 * shape.1 + 0) * shape.2 + 0 == shape.0 * shape.1 * shape.2)
        by (nonlinear_arith);
}

/// `ndarray::Array3::from_elem`: an array of the given shape in which every
/// element is `elem`. The outside function panics where the element count
/// does not fit `isize`, and the allocation behind it where the bytes do not;
/// `requires` leaves both out.
#[verifier::external_body]
pub(crate) fn filled(d0: usize, d1: usize, d2: usize, elem: u32) -> (g: Grid)
    requires
        0 < d0,
        0 < d1,
        0 < d2,
        4 * (d0 * d1 * d2) <= isize::MAX,
    ensures
        grid_shape(g) == (d0 as nat, d1 as nat, d2 as nat),
        grid_cells(g) == Seq::new((d0 * d1 * d2) as nat, |n: int| elem),
{
    Grid { array: ndarray::Array3::from_elem((d0, d1, d2), elem) }
}

/// Indexing an `ndarray` array with `[i, j, k]`: the element at that index.
/// The outside function panics on an index out of bounds.
#[verifier::external_body]
pub(crate) fn at(g: &Grid, i: usize, j: usize, k: usize) -> (elem: u32)
    requires
        in_bounds(grid_shape(*g), i as int, j as int, k as int),
    ensures
        elem == grid_cells(*g)[offset(grid_shape(*g), i as int, j as int, k as int)],
{
    g.array[[i, j, k]]
}

/// Indexing an `ndarray` array mutably with `[i, j, k]`: a reference to the
/// element at that index. What is written through it becomes that element;
/// every other element stays, and so does the shape. The outside function
/// panics on an index out of bounds.
#[verifier::external_body]
pub(crate) fn at_mut(g: &mut Grid, i: usize, j: usize, k: usize) -> (elem: &mut u32)
    requires
        in_bounds(grid_shape(*old(g)), i as int, j as int, k as int),
    ensures
        *elem == grid_cells(*old(g))[offset(grid_shape(*old(g)), i as int, j as int, k as int)],
        grid_shape(*final(g)) == grid_shape(*old(g)),
        grid_cells(*final(g)) == grid_cells(*old(g)).update(
            offset(grid_shape(*old(g)), i as int, j as int, k as int),
            *final(elem),
        ),
{
    &mut g.array[[i, j, k]]
}

/// Makes `elem` the element at `[i, j, k]`.
pub(crate) fn put(g: &mut Grid, i: usize, j: usize, k: usize, elem: u32)
    requires
        in_bounds(grid_shape(*old(g)), i as int, j as int, k as int),
    ensures
        grid_shape(*final(g)) == grid_shape(*old(g)),
        grid_cells(*final(g)) == grid_cells(*old(g)).update(
            offset(grid_shape(*old(g)), i as int, j as int, k as int),
            elem,
        ),
{
    let cell = at_mut(g, i, j, k);
    *cell = elem;
}

/// `ndarray::ArrayBase::len_of`: the length of one axis. The outside
/// function panics on an axis that the array does not have.
#[verifier::external_body]
pub(crate) fn axis_len(g: &Grid, axis: usize) -> (len: usize)
    requires
        axis < 3,
    ensures
        len == if axis == 0 {
            grid_shape(*g).0
        } else if axis == 1 {
            grid_shape(*g).1
        } else {
            grid_shape(*g).2
        },
{
    g.array.len_of(ndarray::Axis(axis))
}

/// `ndarray::ArrayBase::iter`, collected: the elements in logical order.
#[verifier::external_body]
pub(crate) fn flatten(g: &Grid) -> (cells: Vec<u32>)
    ensures
        cells@ == grid_cells(*g),
{
    g.array.iter().cloned().collect()
}

/// `Clone::clone` of an `ndarray` array: an array of the same shape with the
/// same elements.
#[verifier::external_body]
pub(crate) fn duplicate(g: &Grid) -> (copy: Grid)
    ensures
        grid_shape(copy) == grid_shape(*g),
        grid_cells(copy) == grid_cells(*g),
{
    Grid { array: g.array.clone() }
}

/// Replaces every element of the grid by the value at its place in
/// `values`.
pub(crate) fn overwrite(g: &mut Grid, values: &[u32])
    requires
        grid_cells(*old(g)).len() == volume(grid_shape(*old(g))),
        values@.len() == volume(grid_shape(*old(g))),
    ensures
        grid_shape(*final(g)) == grid_shape(*old(g)),
        grid_cells(*final(g)) == values@,
{
    let d0 = axis_len(g, 0);
    let d1 = axis_len(g, 1);
    let d2 = axis_len(g, 2);
    let ghost shape = grid_shape(*g);
    let mut n: usize = 0;
    let mut i: usize = 0;
    proof {
        lemma_offset_start(shape);
    }
    while i < d0
        invariant
            i <= d0,
            shape == (d0 as nat, d1 as nat, d2 as nat),
            grid_shape(*g) == shape,
            grid_cells(*g).len() == volume(shape),
            values@.len() == volume(shape),
            n == offset(shape, i as int, 0, 0),
            forall|m: int| 0 <= m < n ==> grid_cells(*g)[m] == values@[m],
        decreases d0 - i,
    {
        let mut j: usize = 0;
        while j < d1
            invariant
                i < d0,
                j <= d1,
                shape == (d0 as nat, d1 as nat, d2 as nat),
                grid_shape(*g) == shape,
                grid_cells(*g).len() == volume(shape),
                values@.len() == volume(shape),
                n == offset(shape, i as int, j as int, 0),
                forall|m: int| 0 <= m < n ==> grid_cells(*g)[m] == values@[m],
            decreases d1 - j,
        {
            let mut k: usize = 0;
            while k < d2
                invariant
                    i < d0,
                    j < d1,
                    k <= d2,
                    shape == (d0 as nat, d1 as nat, d2 as nat),
                    grid_shape(*g) == shape,
                    grid_cells(*g).len() == volume(shape),
                    values@.len() == volume(shape),
                    n == offset(shape, i as int, j as int, k as int),
                    forall|m: int| 0 <= m < n ==> grid_cells(*g)[m] == values@[m],
                decreases d2 - k,
            {
                proof {
                    lemma_offset_in_volume(shape, i as int, j as int, k as int);
                }
                put(g, i, j, k, values[n]);
                k += 1;
                n += 1;
            }
            proof {
                lemma_offset_row_end(shape, i as int, j as int);
            }
            j += 1;
        }
        proof {
            lemma_offset_plane_end(shape, i as int);
        }
        i += 1;
    }
    proof {
        lemma_offset_end(shape);
        assert(grid_cells(*g) =~= values@);
    }
}

} // verus!
