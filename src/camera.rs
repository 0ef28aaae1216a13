use vstd::prelude::*;
use vstd::arithmetic::div_mod::{
    lemma_fundamental_div_mod, lemma_fundamental_div_mod_converse, lemma_mod_multiples_basic,
    lemma_mod_pos_bound,
};

use crate::geometry::Scale;

verus! {

/// Camera positions are fixed-point: this many units make one virtual pixel.
pub const UNITS_PER_PIXEL: i64 = 1000;

/// A camera position or displacement, in `1 / UNITS_PER_PIXEL` virtual pixels.
#[derive(PartialEq, Eq, Structural, Debug, Clone, Copy)]
pub struct Offset {
    pub x: i64,
    pub y: i64,
}

/// Which pixel grid the rendered camera position is snapped to.
#[derive(PartialEq, Eq, Structural, Debug, Clone, Copy)]
pub enum Alignment {
    /// Whole virtual pixels: coarse steps, `scale` device pixels each.
    WorldPixel,
    /// Whole device pixels: finer steps at scales above one.
    ScreenPixel,
}

/// The camera of the per-frame loop.
#[derive(PartialEq, Eq, Structural, Debug, Clone, Copy)]
pub struct CameraState {
    /// Continuous position, never rounded.
    pub ideal: Offset,
    /// Phase of the scripted orbit, in millionths of a radian.
    pub angle: i64,
    /// Whether input moves the camera (otherwise the orbit drives it).
    pub freelook: bool,
}

/// A position in a common exact unit for one scale `num / den`: one unit is
/// `1 / (UNITS_PER_PIXEL * num)` virtual pixels, which is the same length as
/// `1 / (UNITS_PER_PIXEL * den)` device pixels.
#[derive(PartialEq, Eq, Structural, Debug, Clone, Copy)]
pub struct FinePoint {
    pub x: i128,
    pub y: i128,
}

/// Fine units in one device pixel at `scale`.
pub open spec fn device_unit(scale: Scale) -> int {
    UNITS_PER_PIXEL * scale.den
}

/// Fine units in one virtual pixel at `scale`.
pub open spec fn virtual_unit(scale: Scale) -> int {
    UNITS_PER_PIXEL * scale.num
}

/// The rendered camera position: whole pixels of the chosen grid.
#[derive(PartialEq, Eq, Structural, Debug, Clone, Copy)]
pub struct AlignedOffset {
    x: i128,
    y: i128,
    grid: Alignment,
}

/// Largest magnitude of a snapped pixel count.
pub const MAX_ALIGNED: i128 = 0x1_0000_0000_0000_0000_0000;

/// `a / b` rounded to the nearest integer, halves away from zero.
pub open spec fn round_div(a: int, b: int) -> int {
    if a >= 0 {
        (2 * a + b) / (2 * b)
    } else {
        -((-2 * a + b) / (2 * b))
    }
}

pub open spec fn abs(a: int) -> int {
    if a >= 0 { a } else { -a }
}

/// The snapped pixel count for a camera coordinate of `k` units.
pub open spec fn snapped(k: int, grid: Alignment, scale: Scale) -> int {
    match grid {
        Alignment::WorldPixel => round_div(k, UNITS_PER_PIXEL as int),
        Alignment::ScreenPixel => round_div(
            k * scale.num,
            UNITS_PER_PIXEL * scale.den,
        ),
    }
}

/// Length of one pixel of `grid`, in fine units.
pub open spec fn grid_step(grid: Alignment, scale: Scale) -> int {
    match grid {
        Alignment::WorldPixel => virtual_unit(scale),
        Alignment::ScreenPixel => device_unit(scale),
    }
}

/// A camera coordinate of `k` units, in fine units.
pub open spec fn ideal_fine(k: int, scale: Scale) -> int {
    k * scale.num
}

/// `a mod m`, in `[0, m)` for either sign of `a`.
pub open spec fn wrap(a: int, m: int) -> int {
    a % m
}

pub(crate) fn wrap_exec(a: i128, m: i128) -> (r: i128)
    requires
        m > 0,
        a > i128::MIN,
    ensures
        r == wrap(a as int, m as int),
        0 <= r < m,
{
    if a >= 0 {
        proof {
            lemma_mod_pos_bound(a as int, m as int);
        }
        a % m
    } else {
        let b: i128 = -a;
        let r: i128 = b % m;
        proof {
            lemma_fundamental_div_mod(b as int, m as int);
            lemma_mod_pos_bound(b as int, m as int);
            let q = (b as int) / (m as int);
            if r == 0 {
                assert(a == (-q) * m + 0) by (nonlinear_arith)
                    requires
                        b == m * q + r,
                        r == 0,
                        a == -b,
                ;
                lemma_fundamental_div_mod_converse(a as int, m as int, -q, 0);
            } else {
                assert(a == (-q - 1) * m + (m - r)) by (nonlinear_arith)
                    requires
                        b == m * q + r,
                        a == -b,
                ;
                lemma_fundamental_div_mod_converse(a as int, m as int, -q - 1, m - r);
            }
        }
        if r == 0 {
            0
        } else {
            m - r
        }
    }
}

proof fn lemma_round_div(a: int, b: int)
    requires
        b > 0,
    ensures
        2 * abs(a - round_div(a, b) * b) <= b,
        abs(round_div(a, b)) <= abs(a) / b + 1,
{
    let q = round_div(a, b);
    if a >= 0 {
        let n = 2 * a + b;
        lemma_fundamental_div_mod(n, 2 * b);
        lemma_mod_pos_bound(n, 2 * b);
        assert(2 * abs(a - q * b) <= b) by (nonlinear_arith)
            requires
                n == 2 * b * q + n % (2 * b),
                0 <= n % (2 * b) < 2 * b,
                n == 2 * a + b,
                b > 0,
        ;
        lemma_fundamental_div_mod(a, b);
        lemma_mod_pos_bound(a, b);
        assert(q <= a / b + 1) by (nonlinear_arith)
            requires
                n == 2 * b * q + n % (2 * b),
                0 <= n % (2 * b),
                n == 2 * a + b,
                a == b * (a / b) + a % b,
                a % b < b,
                b > 0,
        ;
        assert(q >= 0) by (nonlinear_arith)
            requires
                n == 2 * b * q + n % (2 * b),
                n % (2 * b) < 2 * b,
                n >= b,
                b > 0,
        ;
    } else {
        let n = -2 * a + b;
        let p = n / (2 * b);
        lemma_fundamental_div_mod(n, 2 * b);
        lemma_mod_pos_bound(n, 2 * b);
        assert(2 * abs(a - q * b) <= b) by (nonlinear_arith)
            requires
                n == 2 * b * p + n % (2 * b),
                0 <= n % (2 * b) < 2 * b,
                n == -2 * a + b,
                q == -p,
                b > 0,
        ;
        lemma_fundamental_div_mod(-a, b);
        lemma_mod_pos_bound(-a, b);
        assert(p <= (-a) / b + 1) by (nonlinear_arith)
            requires
                n == 2 * b * p + n % (2 * b),
                0 <= n % (2 * b),
                n == -2 * a + b,
                -a == b * ((-a) / b) + (-a) % b,
                (-a) % b < b,
                b > 0,
        ;
        assert(p >= 0) by (nonlinear_arith)
            requires
                n == 2 * b * p + n % (2 * b),
                n % (2 * b) < 2 * b,
                n >= b,
                b > 0,
        ;
    }
}

fn round_div_exec(a: i128, b: i128) -> (r: i128)
    requires
        b > 0,
        -0x1_0000_0000_0000_0000_0000_0000_0000 < a < 0x1_0000_0000_0000_0000_0000_0000_0000,
        b < 0x1_0000_0000_0000_0000,
    ensures
        r == round_div(a as int, b as int),
{
    let m: i128 = 2 * b;
    if a >= 0 {
        let n: i128 = 2 * a + b;
        proof {
            assert(n / m <= n) by (nonlinear_arith)
                requires
                    n >= 0,
                    m >= 1,
            ;
        }
        n / m
    } else {
        let n: i128 = b - 2 * a;
        proof {
            assert(0 <= n / m <= n) by (nonlinear_arith)
                requires
                    n >= 0,
                    m >= 1,
            ;
        }
        -(n / m)
    }
}

impl AlignedOffset {
    pub closed spec fn spec_x(self) -> int {
        self.x as int
    }

    pub closed spec fn spec_y(self) -> int {
        self.y as int
    }

    pub closed spec fn spec_grid(self) -> Alignment {
        self.grid
    }

    /// Snapped counts stay within `MAX_ALIGNED`.
    pub open spec fn wf(self) -> bool {
        abs(self.spec_x()) <= MAX_ALIGNED && abs(self.spec_y()) <= MAX_ALIGNED
    }

    /// Snapped count along x, in pixels of the grid.
    pub fn x(&self) -> (r: i128)
        ensures
            r == self.spec_x(),
    {
        self.x
    }

    /// Snapped count along y, in pixels of the grid.
    pub fn y(&self) -> (r: i128)
        ensures
            r == self.spec_y(),
    {
        self.y
    }

    /// The grid the counts are in.
    pub fn grid(&self) -> (r: Alignment)
        ensures
            r == self.spec_grid(),
    {
        self.grid
    }

    /// The snapped position in fine units of `scale`.
    pub fn to_fine(&self, scale: Scale) -> (r: FinePoint)
        requires
            self.wf(),
            scale.is_valid(),
        ensures
            r.x == self.spec_x() * grid_step(self.spec_grid(), scale),
            r.y == self.spec_y() * grid_step(self.spec_grid(), scale),
            abs(r.x as int) < 0x1_0000_0000_0000_0000_0000_0000_0000,
            abs(r.y as int) < 0x1_0000_0000_0000_0000_0000_0000_0000,
    {
        let units: i128 = UNITS_PER_PIXEL as i128;
        let step: i128 = match self.grid {
            Alignment::WorldPixel => units * scale.num as i128,
            Alignment::ScreenPixel => units * scale.den as i128,
        };
        proof {
            lemma_fine_bound(self.spec_x(), step as int);
            lemma_fine_bound(self.spec_y(), step as int);
        }
        FinePoint { x: self.x * step, y: self.y * step }
    }
}

proof fn lemma_fine_bound(c: int, step: int)
    requires
        abs(c) <= MAX_ALIGNED,
        0 < step <= 1000 * 0xffff,
    ensures
        abs(c * step) < 0x1_0000_0000_0000_0000_0000_0000_0000,
{
    assert(abs(c * step) <= MAX_ALIGNED * (1000 * 0xffff)) by (nonlinear_arith)
        requires
            abs(c) <= MAX_ALIGNED,
            0 < step <= 1000 * 0xffff,
    ;
}

impl Offset {
    /// This position in fine units of `scale`.
    pub fn to_fine(&self, scale: Scale) -> (r: FinePoint)
        ensures
            r.x == ideal_fine(self.x as int, scale),
            r.y == ideal_fine(self.y as int, scale),
            abs(r.x as int) < 0x1_0000_0000_0000_0000_0000,
            abs(r.y as int) < 0x1_0000_0000_0000_0000_0000,
    {
        proof {
            lemma_ideal_bound(self.x as int, scale.num as int);
            lemma_ideal_bound(self.y as int, scale.num as int);
        }
        FinePoint { x: self.x as i128 * scale.num as i128, y: self.y as i128 * scale.num as i128 }
    }
}

proof fn lemma_ideal_bound(k: int, n: int)
    requires
        -0x8000_0000_0000_0000 <= k < 0x8000_0000_0000_0000,
        0 <= n < 0x1_0000,
    ensures
        abs(k * n) < 0x1_0000_0000_0000_0000_0000,
{
    assert(abs(k * n) <= 0x8000_0000_0000_0000 * 0xffff) by (nonlinear_arith)
        requires
            -0x8000_0000_0000_0000 <= k < 0x8000_0000_0000_0000,
            0 <= n < 0x1_0000,
    ;
}

fn snap_axis(k: i64, grid: Alignment, scale: Scale) -> (r: i128)
    requires
        scale.is_valid(),
    ensures
        r == snapped(k as int, grid, scale),
        abs(r as int) <= MAX_ALIGNED,
{
    match grid {
        Alignment::WorldPixel => {
            proof {
                lemma_round_div(k as int, 1000);
            }
            round_div_exec(k as i128, UNITS_PER_PIXEL as i128)
        },
        Alignment::ScreenPixel => {
            let b: i128 = UNITS_PER_PIXEL as i128 * scale.den as i128;
            proof {
                lemma_ideal_bound(k as int, scale.num as int);
                lemma_round_div(k * scale.num, b as int);
                assert(abs(k * scale.num) / (b as int) <= abs(k * scale.num)) by (nonlinear_arith)
                    requires
                        b >= 1,
                ;
            }
            round_div_exec(k as i128 * scale.num as i128, b)
        },
    }
}

impl CameraState {
    /// At the origin, orbit phase zero, moved by input.
    pub fn new() -> (r: CameraState)
        ensures
            r.ideal == (Offset { x: 0, y: 0 }),
            r.angle == 0,
            r.freelook,
    {
        CameraState { ideal: Offset { x: 0, y: 0 }, angle: 0, freelook: true }
    }

    /// Moves the camera by `input * speed` units when input drives it; in orbit
    /// mode input is ignored.
    pub fn update(&mut self, input: Offset, speed: i64)
        requires
            old(self).freelook ==> i64::MIN <= old(self).ideal.x + input.x * speed <= i64::MAX,
            old(self).freelook ==> i64::MIN <= old(self).ideal.y + input.y * speed <= i64::MAX,
        ensures
            final(self).angle == old(self).angle,
            final(self).freelook == old(self).freelook,
            old(self).freelook ==> final(self).ideal == (Offset {
                x: (old(self).ideal.x + input.x * speed) as i64,
                y: (old(self).ideal.y + input.y * speed) as i64,
            }),
            !old(self).freelook ==> final(self).ideal == old(self).ideal,
    {
        if self.freelook {
            let x: i128 = self.ideal.x as i128 + input.x as i128 * speed as i128;
            let y: i128 = self.ideal.y as i128 + input.y as i128 * speed as i128;
            self.ideal = Offset { x: x as i64, y: y as i64 };
        }
    }

    /// One step of the scripted orbit: the camera sits at
    /// `rotated - displacement`, where `rotated` is `displacement` turned by the
    /// current phase, and the phase advances by `angle_step`. Does nothing while
    /// input drives the camera.
    pub fn orbit(&mut self, rotated: Offset, displacement: Offset, angle_step: i64)
        requires
            !old(self).freelook ==> i64::MIN <= rotated.x - displacement.x <= i64::MAX,
            !old(self).freelook ==> i64::MIN <= rotated.y - displacement.y <= i64::MAX,
            !old(self).freelook ==> i64::MIN <= old(self).angle + angle_step <= i64::MAX,
        ensures
            final(self).freelook == old(self).freelook,
            !old(self).freelook ==> final(self).ideal == (Offset {
                x: (rotated.x - displacement.x) as i64,
                y: (rotated.y - displacement.y) as i64,
            }),
            !old(self).freelook ==> final(self).angle == old(self).angle + angle_step,
            old(self).freelook ==> *final(self) == *old(self),
    {
        if !self.freelook {
            self.ideal = Offset { x: rotated.x - displacement.x, y: rotated.y - displacement.y };
            self.angle = self.angle + angle_step;
        }
    }

    /// Returns the camera to the origin; the orbit phase and the mode stay.
    pub fn reset(&mut self)
        ensures
            final(self).ideal == (Offset { x: 0, y: 0 }),
            final(self).angle == old(self).angle,
            final(self).freelook == old(self).freelook,
    {
        self.ideal = Offset { x: 0, y: 0 };
    }

    /// Switches between input-driven and orbiting motion.
    pub fn toggle_freelook(&mut self)
        ensures
            final(self).freelook == !old(self).freelook,
            final(self).ideal == old(self).ideal,
            final(self).angle == old(self).angle,
    {
        self.freelook = !self.freelook;
    }

    /// The position to render this frame: the ideal position rounded to the
    /// nearest whole pixel of `grid` (halves away from zero).
    pub fn aligned_offset(&self, grid: Alignment, scale: Scale) -> (r: AlignedOffset)
        requires
            scale.is_valid(),
        ensures
            r.wf(),
            r.spec_grid() == grid,
            r.spec_x() == snapped(self.ideal.x as int, grid, scale),
            r.spec_y() == snapped(self.ideal.y as int, grid, scale),
    {
        AlignedOffset {
            x: snap_axis(self.ideal.x, grid, scale),
            y: snap_axis(self.ideal.y, grid, scale),
            grid,
        }
    }
}

/// The rendered camera position lies on its grid: with world-pixel alignment
/// it is a whole number of virtual pixels, with screen-pixel alignment a whole
/// number of device pixels (so that position times scale is an integer). It is
/// within half a grid pixel of the ideal position, hence, at scales of one or
/// more, within one virtual pixel.
pub proof fn lemma_aligned_on_grid(k: i64, grid: Alignment, scale: Scale)
    requires
        scale.is_valid(),
    ensures
        (snapped(k as int, grid, scale) * grid_step(grid, scale)) % grid_step(grid, scale) == 0,
        2 * abs(ideal_fine(k as int, scale) - snapped(k as int, grid, scale) * grid_step(grid, scale))
            <= grid_step(grid, scale),
        scale.num >= scale.den ==> abs(
            ideal_fine(k as int, scale) - snapped(k as int, grid, scale) * grid_step(grid, scale),
        ) < UNITS_PER_PIXEL * scale.num,
{
    let step = grid_step(grid, scale);
    let q = snapped(k as int, grid, scale);
    let n = scale.num as int;
    lemma_mod_multiples_basic(q, step);
    match grid {
        Alignment::WorldPixel => {
            lemma_round_div(k as int, 1000);
            assert(2 * abs(k * n - q * step) <= step) by (nonlinear_arith)
                requires
                    2 * abs(k - q * 1000) <= 1000,
                    step == 1000 * n,
                    n > 0,
            ;
        },
        Alignment::ScreenPixel => {
            lemma_round_div(k * n, step);
        },
    }
}

} // verus!
