//! The source of gradients: a scalar field together with the spacing of its
//! samples, sampled around a point for the central differences that give the
//! surface its normals.
//!
//! The differences themselves are floating point and are the caller's. What
//! is decided here is where the samples are taken (never outside the unit
//! cube) and when they give no direction, so that a fixed normal takes the
//! place of one that cannot be computed.

use vstd::prelude::*;
use crate::binary32::{
    clamp_unit,
    clamped_to_unit,
    equal_numbers,
    finite,
    is_finite,
    same_number,
    ONE,
    ZERO,
};
use crate::scalar_field::{
    lemma_sample_stays_in_field,
    lemma_unit_interval_needs_no_clamp,
    Ratio,
    ScalarField,
    INDEX_MARGIN,
};

verus! {

/// The normal that stands in where the field gives no direction: the unit
/// vector along the second axis.
pub const FALLBACK_NORMAL: [u32; 3] = [ZERO, ONE, ZERO];

/// The values of the field on either side of a point, along each of the
/// three axes.
#[derive(Clone, Copy, Debug)]
pub struct Stencil {
    /// The values towards the low end of the x, y and z axis.
    pub below: [u32; 3],
    /// The values towards the high end of the x, y and z axis.
    pub above: [u32; 3],
}

impl Stencil {
    /// Whether all six values are numbers.
    pub open spec fn all_finite(self) -> bool {
        forall|a: int|
            0 <= a < 3 ==> is_finite(#[trigger] self.below[a]) && is_finite(self.above[a])
    }

    /// Whether the two values are the same number along every axis.
    pub open spec fn flat(self) -> bool {
        forall|a: int| 0 <= a < 3 ==> same_number(#[trigger] self.below[a], self.above[a])
    }

    /// Whether the central differences give no direction: a value is no
    /// number, or every difference is zero.
    pub open spec fn degenerate(self) -> bool {
        !self.all_finite() || self.flat()
    }

    /// The normal to use in place of the gradient's direction, where there
    /// is none: the fallback normal for a degenerate stencil, and `None` for
    /// every other.
    pub fn fallback(&self) -> (normal: Option<[u32; 3]>)
        ensures
            normal == if self.degenerate() {
                Some(FALLBACK_NORMAL)
            } else {
                None::<[u32; 3]>
            },
    {
        let mut flat = true;
        let mut a: usize = 0;
        while a < 3
            invariant
                a <= 3,
                forall|b: int|
                    0 <= b < a ==> is_finite(#[trigger] self.below[b]) && is_finite(
                        self.above[b],
                    ),
                flat == (forall|b: int|
                    0 <= b < a ==> same_number(#[trigger] self.below[b], self.above[b])),
            decreases 3 - a,
        {
            if !finite(self.below[a]) || !finite(self.above[a]) {
                return Some(FALLBACK_NORMAL);
            }
            if !equal_numbers(self.below[a], self.above[a]) {
                flat = false;
            }
            a += 1;
        }
        if flat {
            Some(FALLBACK_NORMAL)
        } else {
            None
        }
    }
}

/// A scalar field with the spacing of the samples that its gradient is
/// estimated from.
pub struct GradientSource {
    source: ScalarField,
    epsilon: Ratio,
}

impl GradientSource {
    /// The field that is sampled.
    pub closed spec fn field(self) -> ScalarField {
        self.source
    }

    /// The distance between a point and the samples around it.
    pub closed spec fn spacing(self) -> Ratio {
        self.epsilon
    }

    /// The field is well formed.
    pub open spec fn wf(self) -> bool {
        self.field().wf()
    }

    /// The value that the field has at the coordinates `p = [x, y, z]` once
    /// they have been clamped into the unit cube.
    pub open spec fn clamped_value(self, p: [u32; 3]) -> u32 {
        self.field().value_at(
            clamped_to_unit(p[0]),
            clamped_to_unit(p[1]),
            clamped_to_unit(p[2]),
        )
    }

    /// The stencil that the six points give: `below[a]` and `above[a]` are
    /// the points on either side along axis `a`.
    pub open spec fn stencil_at(self, below: [[u32; 3]; 3], above: [[u32; 3]; 3]) -> Stencil {
        Stencil {
            below: [
                self.clamped_value(below[0]),
                self.clamped_value(below[1]),
                self.clamped_value(below[2]),
            ],
            above: [
                self.clamped_value(above[0]),
                self.clamped_value(above[1]),
                self.clamped_value(above[2]),
            ],
        }
    }

    /// Wraps a field, with the spacing given.
    pub fn new_with_epsilon(source: ScalarField, epsilon: Ratio) -> (gradient: GradientSource)
        ensures
            gradient.field() == source,
            gradient.spacing() == epsilon,
    {
        GradientSource { source, epsilon }
    }

    /// The field that is sampled.
    pub fn inner(&self) -> (source: &ScalarField)
        ensures
            *source == self.field(),
    {
        &self.source
    }

    /// The field that is sampled, to be written.
    pub fn inner_mut(&mut self) -> (source: &mut ScalarField)
        ensures
            *source == old(self).field(),
            final(self).field() == *final(source),
            final(self).spacing() == old(self).spacing(),
    {
        &mut self.source
    }

    /// The distance between a point and the samples around it.
    pub fn epsilon(&self) -> (epsilon: Ratio)
        ensures
            epsilon == self.spacing(),
    {
        self.epsilon
    }

    /// The value of the field at the coordinates `(x, y, z)`, as the field
    /// itself gives it.
    pub fn sample(&self, x: u32, y: u32, z: u32) -> (value: u32)
        requires
            self.wf(),
        ensures
            value == self.field().value_at(x, y, z),
    {
        self.source.sample(x, y, z)
    }

    /// The value of the field at the coordinates `p = [x, y, z]`, clamped
    /// into the unit cube before the field sees them.
    pub fn sample_clamped(&self, p: &[u32; 3]) -> (value: u32)
        requires
            self.wf(),
        ensures
            value == self.clamped_value(*p),
    {
        self.source.sample(clamp_unit(p[0]), clamp_unit(p[1]), clamp_unit(p[2]))
    }

    /// Samples the field at the six points around a point: `below[a]` and
    /// `above[a]` are the coordinates of the points on either side along
    /// axis `a`. Every point is clamped into the unit cube.
    pub fn stencil(&self, below: &[[u32; 3]; 3], above: &[[u32; 3]; 3]) -> (stencil: Stencil)
        requires
            self.wf(),
        ensures
            stencil.below@ == self.stencil_at(*below, *above).below@,
            stencil.above@ == self.stencil_at(*below, *above).above@,
    {
        let lower = [
            self.sample_clamped(&below[0]),
            self.sample_clamped(&below[1]),
            self.sample_clamped(&below[2]),
        ];
        let upper = [
            self.sample_clamped(&above[0]),
            self.sample_clamped(&above[1]),
            self.sample_clamped(&above[2]),
        ];
        let stencil = Stencil { below: lower, above: upper };
        proof {
            assert(stencil.below@ =~= self.stencil_at(*below, *above).below@);
            assert(stencil.above@ =~= self.stencil_at(*below, *above).above@);
        }
        stencil
    }
}

/// The fallback normal has unit length: one of its components is one and the
/// other two are zero.
pub proof fn lemma_fallback_is_unit()
    ensures
        FALLBACK_NORMAL@ == seq![ZERO, ONE, ZERO],
        is_finite(ZERO),
        is_finite(ONE),
{
    assert(FALLBACK_NORMAL@ =~= seq![ZERO, ONE, ZERO]);
}

/// No sample for a gradient leaves the unit cube: whatever the coordinates
/// of a point, the clamped sample reads a cell whose index is at most
/// `side - 2` on every axis.
pub proof fn lemma_clamped_samples_stay_inside(gradient: GradientSource, p: [u32; 3])
    requires
        gradient.wf(),
    ensures
        forall|a: int|
            0 <= a < 3 ==> 0 <= gradient.field().axis_index(#[trigger] clamped_to_unit(p[a]))
                <= gradient.field().side() - INDEX_MARGIN,
{
    assert forall|a: int| 0 <= a < 3 implies 0 <= gradient.field().axis_index(
        #[trigger] clamped_to_unit(p[a]),
    ) <= gradient.field().side() - INDEX_MARGIN by {
        lemma_unit_interval_needs_no_clamp(gradient.field(), clamped_to_unit(p[a]));
    }
}

/// In a flat region the normal is the fallback: where every cell of the
/// field holds the same number, the stencil around any point is degenerate,
/// whatever the six points are.
pub proof fn lemma_flat_field_takes_fallback(
    gradient: GradientSource,
    below: [[u32; 3]; 3],
    above: [[u32; 3]; 3],
    value: u32,
)
    requires
        gradient.wf(),
        forall|n: int| 0 <= n < gradient.field()@.len() ==> gradient.field()@[n] == value,
    ensures
        gradient.stencil_at(below, above).degenerate(),
{
    let field = gradient.field();
    let stencil = gradient.stencil_at(below, above);
    assert forall|a: int| 0 <= a < 3 implies same_number(
        #[trigger] stencil.below[a],
        stencil.above[a],
    ) by {
        let lo = below[a];
        let hi = above[a];
        lemma_sample_stays_in_field(
            field,
            clamped_to_unit(lo[0]),
            clamped_to_unit(lo[1]),
            clamped_to_unit(lo[2]),
        );
        lemma_sample_stays_in_field(
            field,
            clamped_to_unit(hi[0]),
            clamped_to_unit(hi[1]),
            clamped_to_unit(hi[2]),
        );
        assert(stencil.below[a] == gradient.clamped_value(lo));
        assert(stencil.above[a] == gradient.clamped_value(hi));
    }
}

} // verus!
