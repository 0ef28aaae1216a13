use vstd::prelude::*;
use vstd::arithmetic::div_mod::lemma_fundamental_div_mod;

use crate::camera::{
    device_unit, grid_step, ideal_fine, wrap, wrap_exec, AlignedOffset, Offset, UNITS_PER_PIXEL,
};
use crate::geometry::Scale;

verus! {

/// A sub-pixel sampling shift, as the fractions `x / den` and `y / den` of a
/// device pixel.
#[derive(PartialEq, Eq, Structural, Debug, Clone, Copy)]
pub struct SamplingBias {
    pub x: u64,
    pub y: u64,
    pub den: u64,
}

/// What the aligned position dropped of the ideal one along an axis, in fine
/// units: divided by `device_unit(scale)` it is `(ideal - aligned) * scale`.
pub open spec fn residual(k: int, snapped_count: int, aligned: AlignedOffset, scale: Scale) -> int {
    ideal_fine(k, scale) - snapped_count * grid_step(aligned.spec_grid(), scale)
}

/// The shift that a texture-sampling stage applies to make up for the
/// fraction of a device pixel that alignment dropped: the fractional part of
/// `(ideal - aligned) * scale` along x, and of its negation along y, because
/// the rendered surface is flipped vertically. Both lie in `[0, 1)`.
pub fn sampling_bias(ideal: Offset, aligned: &AlignedOffset, scale: Scale) -> (r: SamplingBias)
    requires
        aligned.wf(),
        scale.is_valid(),
    ensures
        r.den == device_unit(scale),
        r.x == wrap(residual(ideal.x as int, aligned.spec_x(), *aligned, scale), device_unit(scale)),
        r.y == wrap(-residual(ideal.y as int, aligned.spec_y(), *aligned, scale), device_unit(scale)),
{
    let i = ideal.to_fine(scale);
    let a = aligned.to_fine(scale);
    let units: i128 = UNITS_PER_PIXEL as i128;
    let den: i128 = units * scale.den as i128;
    let x: i128 = wrap_exec(i.x - a.x, den);
    let y: i128 = wrap_exec(a.y - i.y, den);
    SamplingBias { x: x as u64, y: y as u64, den: den as u64 }
}

/// Both components of the bias lie in `[0, 1)`, whatever the two positions.
pub proof fn lemma_bias_in_unit_range(ideal: Offset, aligned: AlignedOffset, scale: Scale)
    requires
        aligned.wf(),
        scale.is_valid(),
    ensures
        0 <= wrap(residual(ideal.x as int, aligned.spec_x(), aligned, scale), device_unit(scale))
            < device_unit(scale),
        0 <= wrap(-residual(ideal.y as int, aligned.spec_y(), aligned, scale), device_unit(scale))
            < device_unit(scale),
{
    lemma_mod_pos_bound_any(residual(ideal.x as int, aligned.spec_x(), aligned, scale), device_unit(scale));
    lemma_mod_pos_bound_any(-residual(ideal.y as int, aligned.spec_y(), aligned, scale), device_unit(scale));
}

proof fn lemma_mod_pos_bound_any(a: int, m: int)
    requires
        m > 0,
    ensures
        0 <= wrap(a, m) < m,
{
    lemma_fundamental_div_mod(a, m);
}

} // verus!
