use vstd::prelude::*;
use vstd::arithmetic::div_mod::{lemma_fundamental_div_mod, lemma_mod_pos_bound};

verus! {

/// A scale factor held exactly as the fraction `num / den`: the number of
/// device pixels that one virtual pixel covers. It is valid when both parts
/// are positive.
#[derive(PartialEq, Eq, Structural, Debug, Clone, Copy)]
pub struct Scale {
    pub num: u16,
    pub den: u16,
}

impl Scale {
    pub open spec fn is_valid(self) -> bool {
        self.num > 0 && self.den > 0
    }
}

/// A window size in device pixels.
#[derive(PartialEq, Eq, Structural, Debug, Clone, Copy)]
pub struct Resolution {
    pub width: u32,
    pub height: u32,
}

/// How the canvas is fitted into a window whose size is not a multiple of the
/// scale factor.
#[derive(PartialEq, Eq, Structural, Debug, Clone, Copy)]
pub enum SizingMode {
    /// The canvas never exceeds the window; the remainder is a centred letterbox.
    Trim,
    /// One more virtual pixel is rendered on each axis and clipped by the window
    /// edge; the canvas is pinned to the top-left corner, with no letterbox.
    Overscan,
}

/// The fit of the canvas along one axis.
#[derive(PartialEq, Eq, Structural, Debug, Clone, Copy)]
pub struct AxisFit {
    /// Canvas length in virtual pixels.
    pub canvas: u64,
    /// `window mod scale`, counted in units of `1 / scale.den` device pixels,
    /// so that it is exact; always below `scale.num`.
    pub leftover: u64,
    /// Device-pixel offset of the canvas inside the window, floored.
    pub letterbox: u64,
}

/// The canvas derived from a window size, a scale factor and a sizing mode.
#[derive(PartialEq, Eq, Structural, Debug, Clone, Copy)]
pub struct CanvasGeometry {
    pub window: Resolution,
    pub scale: Scale,
    pub mode: SizingMode,
    pub x: AxisFit,
    pub y: AxisFit,
}

#[derive(PartialEq, Eq, Structural, Debug, Clone, Copy)]
pub enum GeometryError {
    /// The scale factor is not positive.
    InvalidScale,
}

/// Whole virtual pixels that fit in `w` device pixels at scale `num / den`:
/// `floor((w - leftover) / scale)`.
pub open spec fn whole_pixels(w: nat, num: nat, den: nat) -> nat {
    (w * den) / num
}

/// `w mod (num / den)`, in units of `1 / den` device pixels.
pub open spec fn leftover_of(w: nat, num: nat, den: nat) -> nat {
    (w * den) % num
}

/// Canvas length along an axis of `w` device pixels; an empty axis gives an
/// empty canvas in either mode.
pub open spec fn canvas_of(w: nat, num: nat, den: nat, mode: SizingMode) -> nat {
    if w == 0 {
        0
    } else {
        match mode {
            SizingMode::Trim => whole_pixels(w, num, den),
            SizingMode::Overscan => whole_pixels(w, num, den) + 1,
        }
    }
}

/// `floor((w - canvas * scale) / 2)` in Trim mode; zero in Overscan mode.
pub open spec fn letterbox_of(w: nat, num: nat, den: nat, mode: SizingMode) -> nat {
    match mode {
        SizingMode::Trim => leftover_of(w, num, den) / (2 * den),
        SizingMode::Overscan => 0,
    }
}

pub open spec fn axis_fit_of(w: nat, scale: Scale, mode: SizingMode) -> AxisFit {
    AxisFit {
        canvas: canvas_of(w, scale.num as nat, scale.den as nat, mode) as u64,
        leftover: leftover_of(w, scale.num as nat, scale.den as nat) as u64,
        letterbox: letterbox_of(w, scale.num as nat, scale.den as nat, mode) as u64,
    }
}

/// The geometry for a window, a valid scale and a mode.
pub open spec fn geometry_of(window: Resolution, scale: Scale, mode: SizingMode) -> CanvasGeometry {
    CanvasGeometry {
        window,
        scale,
        mode,
        x: axis_fit_of(window.width as nat, scale, mode),
        y: axis_fit_of(window.height as nat, scale, mode),
    }
}

/// Division facts for one axis; also that every field fits its type.
proof fn lemma_axis(w: nat, num: nat, den: nat)
    requires
        0 < num < 0x1_0000,
        0 < den < 0x1_0000,
        w < 0x1_0000_0000,
    ensures
        whole_pixels(w, num, den) * num + leftover_of(w, num, den) == w * den,
        leftover_of(w, num, den) < num,
        w * den < 0x1_0000_0000_0000,
        whole_pixels(w, num, den) <= w * den,
{
    assert(w * den < 0x1_0000_0000_0000) by (nonlinear_arith)
        requires
            w < 0x1_0000_0000,
            den < 0x1_0000,
    ;
    let q = whole_pixels(w, num, den);
    let r = leftover_of(w, num, den);
    lemma_fundamental_div_mod((w * den) as int, num as int);
    lemma_mod_pos_bound((w * den) as int, num as int);
    assert(q * num == num * q) by (nonlinear_arith);
    assert(q <= w * den) by (nonlinear_arith)
        requires
            q * num + r == w * den,
            num >= 1,
    ;
}

/// Overscan adds one virtual pixel: `(q + 1) * num` exceeds the window by
/// `num - leftover`.
proof fn lemma_overscan_axis(w: nat, num: nat, den: nat)
    requires
        0 < num < 0x1_0000,
        0 < den < 0x1_0000,
        w < 0x1_0000_0000,
    ensures
        canvas_of(w, num, den, SizingMode::Overscan) * num >= w * den,
        canvas_of(w, num, den, SizingMode::Overscan) * num - w * den <= num,
        canvas_of(w, num, den, SizingMode::Overscan) < 0x1_0000_0000_0000,
{
    lemma_axis(w, num, den);
    let q = whole_pixels(w, num, den);
    if w == 0 {
        assert(0 * den == 0);
    } else {
        assert((q + 1) * num == q * num + num) by (nonlinear_arith);
        assert(w * den <= 0xffff_ffff * 0xffff) by (nonlinear_arith)
            requires
                w < 0x1_0000_0000,
                den < 0x1_0000,
        ;
    }
}

fn fit_axis(w: u32, scale: Scale, mode: SizingMode) -> (r: AxisFit)
    requires
        scale.is_valid(),
    ensures
        r == axis_fit_of(w as nat, scale, mode),
{
    proof {
        lemma_axis(w as nat, scale.num as nat, scale.den as nat);
    }
    let scaled: u64 = w as u64 * scale.den as u64;
    let whole: u64 = scaled / scale.num as u64;
    let leftover: u64 = scaled % scale.num as u64;
    let canvas: u64 = if w == 0 {
        0
    } else {
        match mode {
            SizingMode::Trim => whole,
            SizingMode::Overscan => whole + 1,
        }
    };
    let letterbox: u64 = match mode {
        SizingMode::Trim => leftover / (2 * scale.den as u64),
        SizingMode::Overscan => 0,
    };
    AxisFit { canvas, leftover, letterbox }
}

/// Sizes the virtual canvas for `window` at `scale`. Fails exactly when the
/// scale factor is not positive.
pub fn compute_geometry(window: Resolution, scale: Scale, mode: SizingMode) -> (r: Result<
    CanvasGeometry,
    GeometryError,
>)
    ensures
        !scale.is_valid() ==> r == Err::<CanvasGeometry, GeometryError>(
            GeometryError::InvalidScale,
        ),
        scale.is_valid() ==> r == Ok::<CanvasGeometry, GeometryError>(
            geometry_of(window, scale, mode),
        ),
{
    if scale.num == 0 || scale.den == 0 {
        return Err(GeometryError::InvalidScale);
    }
    Ok(
        CanvasGeometry {
            window,
            scale,
            mode,
            x: fit_axis(window.width, scale, mode),
            y: fit_axis(window.height, scale, mode),
        },
    )
}

impl CanvasGeometry {
    /// Holds of every geometry that `compute_geometry` returns.
    pub open spec fn wf(self) -> bool {
        self.scale.is_valid() && self == geometry_of(self.window, self.scale, self.mode)
    }

    /// Whether the geometry must be computed again for these inputs.
    pub fn needs_recompute(&self, window: Resolution, scale: Scale, mode: SizingMode) -> (r: bool)
        ensures
            r == !(self.window == window && self.scale == scale && self.mode == mode),
    {
        !(self.window == window && self.scale == scale && self.mode == mode)
    }
}

/// In Trim mode the scaled canvas fits inside the window, and the leftover
/// lies in `[0, scale)`: canvas times scale plus leftover is the window.
pub proof fn lemma_trim_fits_window(window: Resolution, scale: Scale)
    requires
        scale.is_valid(),
    ensures
        ({
            let g = geometry_of(window, scale, SizingMode::Trim);
            &&& g.x.canvas * scale.num <= window.width * scale.den
            &&& g.y.canvas * scale.num <= window.height * scale.den
            &&& g.x.leftover < scale.num
            &&& g.y.leftover < scale.num
            &&& g.x.canvas * scale.num + g.x.leftover == window.width * scale.den
            &&& g.y.canvas * scale.num + g.y.leftover == window.height * scale.den
        }),
{
    lemma_axis(window.width as nat, scale.num as nat, scale.den as nat);
    lemma_axis(window.height as nat, scale.num as nat, scale.den as nat);
}

/// In Overscan mode the scaled canvas covers the window, and overshoots it by
/// at most one virtual pixel.
pub proof fn lemma_overscan_covers_window(window: Resolution, scale: Scale)
    requires
        scale.is_valid(),
    ensures
        ({
            let g = geometry_of(window, scale, SizingMode::Overscan);
            &&& g.x.canvas * scale.num >= window.width * scale.den
            &&& g.y.canvas * scale.num >= window.height * scale.den
            &&& g.x.canvas * scale.num - window.width * scale.den <= scale.num
            &&& g.y.canvas * scale.num - window.height * scale.den <= scale.num
        }),
{
    lemma_overscan_axis(window.width as nat, scale.num as nat, scale.den as nat);
    lemma_overscan_axis(window.height as nat, scale.num as nat, scale.den as nat);
}

} // verus!
