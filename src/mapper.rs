use vstd::prelude::*;
use vstd::arithmetic::div_mod::lemma_fundamental_div_mod;

use crate::camera::{abs, device_unit, virtual_unit, wrap, wrap_exec, FinePoint, UNITS_PER_PIXEL};
use crate::geometry::{CanvasGeometry, Scale};

verus! {

/// The largest multiple of `step` not above `a`.
pub open spec fn floor_to(a: int, step: int) -> int {
    (a / step) * step
}

/// Bound on the magnitude of positions handed to the mapper.
pub const MAX_FINE: i128 = 0x2000_0000_0000_0000_0000_0000_0000_0000;

pub open spec fn in_range(p: FinePoint) -> bool {
    abs(p.x as int) < MAX_FINE && abs(p.y as int) < MAX_FINE
}

/// The letterbox offset of `g` in fine units.
pub open spec fn letterbox_fine(g: CanvasGeometry) -> (int, int) {
    (g.x.letterbox * device_unit(g.scale), g.y.letterbox * device_unit(g.scale))
}

/// `(screen - letterbox) / scale + camera`, optionally floored to a whole
/// virtual pixel.
pub open spec fn canvas_of_screen(
    screen: FinePoint,
    g: CanvasGeometry,
    camera: FinePoint,
    snap: bool,
) -> (int, int) {
    let x = screen.x - letterbox_fine(g).0 + camera.x;
    let y = screen.y - letterbox_fine(g).1 + camera.y;
    if snap {
        (floor_to(x, virtual_unit(g.scale)), floor_to(y, virtual_unit(g.scale)))
    } else {
        (x, y)
    }
}

/// `(canvas - camera) * scale + letterbox`.
pub open spec fn screen_of_canvas(canvas: FinePoint, g: CanvasGeometry, camera: FinePoint) -> (
    int,
    int,
) {
    (
        canvas.x - camera.x + letterbox_fine(g).0,
        canvas.y - camera.y + letterbox_fine(g).1,
    )
}

proof fn lemma_letterbox_small(g: CanvasGeometry)
    requires
        g.wf(),
    ensures
        0 <= letterbox_fine(g).0 < 0x1_0000_0000_0000,
        0 <= letterbox_fine(g).1 < 0x1_0000_0000_0000,
{
    let d = g.scale.den as int;
    let n = g.scale.num as int;
    let lx = g.x.leftover as int;
    let ly = g.y.leftover as int;
    lemma_fundamental_div_mod((g.window.width as nat * g.scale.den as nat) as int, n);
    lemma_fundamental_div_mod((g.window.height as nat * g.scale.den as nat) as int, n);
    assert(g.x.letterbox <= lx && g.y.letterbox <= ly) by (nonlinear_arith)
        requires
            g.x.letterbox == 0 || g.x.letterbox == lx / (2 * d),
            g.y.letterbox == 0 || g.y.letterbox == ly / (2 * d),
            lx >= 0,
            ly >= 0,
            d >= 1,
    ;
    assert(letterbox_fine(g).0 < 0x1_0000_0000_0000 && letterbox_fine(g).1 < 0x1_0000_0000_0000)
        by (nonlinear_arith)
        requires
            g.x.letterbox <= lx < n,
            g.y.letterbox <= ly < n,
            n < 0x1_0000,
            d < 0x1_0000,
            letterbox_fine(g).0 == g.x.letterbox * (1000 * d),
            letterbox_fine(g).1 == g.y.letterbox * (1000 * d),
    ;
    assert(letterbox_fine(g).0 >= 0 && letterbox_fine(g).1 >= 0) by (nonlinear_arith)
        requires
            d >= 1,
            letterbox_fine(g).0 == g.x.letterbox * (1000 * d),
            letterbox_fine(g).1 == g.y.letterbox * (1000 * d),
    ;
}

/// A pointer position in whole device pixels, in fine units of `scale`.
pub fn device_to_fine(x: i64, y: i64, scale: Scale) -> (r: FinePoint)
    requires
        scale.is_valid(),
    ensures
        r.x == x * device_unit(scale),
        r.y == y * device_unit(scale),
{
    let unit: i128 = UNITS_PER_PIXEL as i128 * scale.den as i128;
    proof {
        assert(unit == 1000 * scale.den);
        assert(abs(x * unit) < 0x1_0000_0000_0000_0000_0000_0000 && abs(y * unit)
            < 0x1_0000_0000_0000_0000_0000_0000) by (nonlinear_arith)
            requires
                0 < unit < 0x1_0000_0000,
                -0x8000_0000_0000_0000 <= x < 0x8000_0000_0000_0000,
                -0x8000_0000_0000_0000 <= y < 0x8000_0000_0000_0000,
        ;
    }
    FinePoint { x: x as i128 * unit, y: y as i128 * unit }
}

/// Where a pointer at `screen` lands on the canvas: the letterbox is removed,
/// device pixels become virtual pixels, and the canvas origin is moved by
/// `camera` (the ideal or the aligned camera position, in fine units). With
/// `snap` the result is floored to a whole virtual pixel.
pub fn screen_to_canvas(screen: FinePoint, g: &CanvasGeometry, camera: FinePoint, snap: bool) -> (r:
    FinePoint)
    requires
        g.wf(),
        in_range(screen),
        in_range(camera),
    ensures
        (r.x as int, r.y as int) == canvas_of_screen(screen, *g, camera, snap),
{
    proof {
        lemma_letterbox_small(*g);
    }
    let unit: i128 = UNITS_PER_PIXEL as i128 * g.scale.den as i128;
    let x: i128 = screen.x - g.x.letterbox as i128 * unit + camera.x;
    let y: i128 = screen.y - g.y.letterbox as i128 * unit + camera.y;
    if snap {
        let step: i128 = UNITS_PER_PIXEL as i128 * g.scale.num as i128;
        let fx = x - wrap_exec(x, step);
        let fy = y - wrap_exec(y, step);
        proof {
            lemma_fundamental_div_mod(x as int, step as int);
            lemma_fundamental_div_mod(y as int, step as int);
            assert(fx == floor_to(x as int, step as int)) by (nonlinear_arith)
                requires
                    x == step * (x / step) + wrap(x as int, step as int),
                    fx == x - wrap(x as int, step as int),
            ;
            assert(fy == floor_to(y as int, step as int)) by (nonlinear_arith)
                requires
                    y == step * (y / step) + wrap(y as int, step as int),
                    fy == y - wrap(y as int, step as int),
            ;
        }
        FinePoint { x: fx, y: fy }
    } else {
        FinePoint { x, y }
    }
}

/// Where a canvas position appears in the window: the inverse of
/// `screen_to_canvas` without snapping.
pub fn canvas_to_screen(canvas: FinePoint, g: &CanvasGeometry, camera: FinePoint) -> (r: FinePoint)
    requires
        g.wf(),
        in_range(canvas),
        in_range(camera),
    ensures
        (r.x as int, r.y as int) == screen_of_canvas(canvas, *g, camera),
{
    proof {
        lemma_letterbox_small(*g);
    }
    let unit: i128 = UNITS_PER_PIXEL as i128 * g.scale.den as i128;
    FinePoint {
        x: canvas.x - camera.x + g.x.letterbox as i128 * unit,
        y: canvas.y - camera.y + g.y.letterbox as i128 * unit,
    }
}

/// Mapping a canvas position to the screen and back gives it again.
pub proof fn lemma_round_trip(canvas: FinePoint, g: CanvasGeometry, camera: FinePoint)
    requires
        g.wf(),
        in_range(canvas),
        in_range(camera),
    ensures
        ({
            let s = screen_of_canvas(canvas, g, camera);
            canvas_of_screen(FinePoint { x: s.0 as i128, y: s.1 as i128 }, g, camera, false) == (
                canvas.x as int,
                canvas.y as int,
            )
        }),
{
    lemma_letterbox_small(g);
}

} // verus!
