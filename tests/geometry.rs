use pixel_perfect::{
    compute_geometry, AxisFit, GeometryError, Resolution, Scale, SizingMode,
};

fn res(width: u32, height: u32) -> Resolution {
    Resolution { width, height }
}

fn scale(num: u16, den: u16) -> Scale {
    Scale { num, den }
}

#[test]
fn trim_example_1000x700_at_3() {
    let g = compute_geometry(res(1000, 700), scale(3, 1), SizingMode::Trim).unwrap();
    assert_eq!(g.x, AxisFit { canvas: 333, leftover: 1, letterbox: 0 });
    assert_eq!(g.y, AxisFit { canvas: 233, leftover: 1, letterbox: 0 });
}

#[test]
fn overscan_example_1000x700_at_3() {
    let g = compute_geometry(res(1000, 700), scale(3, 1), SizingMode::Overscan).unwrap();
    assert_eq!(g.x, AxisFit { canvas: 334, leftover: 1, letterbox: 0 });
    assert_eq!(g.y, AxisFit { canvas: 234, leftover: 1, letterbox: 0 });
}

#[test]
fn trim_letterbox_is_half_the_leftover_floored() {
    // 1000 = 142 * 7 + 6, so three device pixels on each side
    let g = compute_geometry(res(1000, 700), scale(7, 1), SizingMode::Trim).unwrap();
    assert_eq!(g.x, AxisFit { canvas: 142, leftover: 6, letterbox: 3 });
    assert_eq!(g.y, AxisFit { canvas: 100, leftover: 0, letterbox: 0 });
}

#[test]
fn fractional_scale_is_exact() {
    // scale 1.5: 1001 device pixels hold 667 virtual pixels with half a device
    // pixel left over (one unit of 1/2)
    let g = compute_geometry(res(1001, 9), scale(3, 2), SizingMode::Trim).unwrap();
    assert_eq!(g.x, AxisFit { canvas: 667, leftover: 1, letterbox: 0 });
    assert_eq!(g.y, AxisFit { canvas: 6, leftover: 0, letterbox: 0 });
    // scale 2.5: 13 device pixels = 5 virtual pixels and 0.5 left over
    let g = compute_geometry(res(13, 14), scale(5, 2), SizingMode::Trim).unwrap();
    assert_eq!(g.x, AxisFit { canvas: 5, leftover: 1, letterbox: 0 });
    assert_eq!(g.y, AxisFit { canvas: 5, leftover: 3, letterbox: 0 });
}

#[test]
fn non_positive_scale_is_rejected() {
    assert_eq!(
        compute_geometry(res(1000, 700), scale(0, 1), SizingMode::Trim),
        Err(GeometryError::InvalidScale)
    );
    assert_eq!(
        compute_geometry(res(1000, 700), scale(3, 0), SizingMode::Overscan),
        Err(GeometryError::InvalidScale)
    );
}

#[test]
fn empty_window_gives_empty_canvas() {
    for mode in [SizingMode::Trim, SizingMode::Overscan] {
        let g = compute_geometry(res(0, 700), scale(3, 1), mode).unwrap();
        assert_eq!(g.x.canvas, 0);
        assert_eq!(g.y.canvas, if mode == SizingMode::Trim { 233 } else { 234 });
    }
}

#[test]
fn trim_fits_and_overscan_covers() {
    for (w, n, d) in [(1000u32, 3u16, 1u16), (1920, 5, 2), (641, 4, 1), (1, 7, 3), (4_000_000, 65535, 1)] {
        let t = compute_geometry(res(w, w), scale(n, d), SizingMode::Trim).unwrap();
        let o = compute_geometry(res(w, w), scale(n, d), SizingMode::Overscan).unwrap();
        let wd = w as u64 * d as u64;
        assert!(t.x.canvas * n as u64 <= wd);
        assert!(t.x.leftover < n as u64);
        assert_eq!(t.x.canvas * n as u64 + t.x.leftover, wd);
        assert!(o.x.canvas * n as u64 >= wd);
        assert!(o.x.canvas * n as u64 - wd <= n as u64);
    }
}

#[test]
fn recompute_only_on_change() {
    let g = compute_geometry(res(800, 600), scale(2, 1), SizingMode::Trim).unwrap();
    assert!(!g.needs_recompute(res(800, 600), scale(2, 1), SizingMode::Trim));
    assert!(g.needs_recompute(res(801, 600), scale(2, 1), SizingMode::Trim));
    assert!(g.needs_recompute(res(800, 600), scale(4, 1), SizingMode::Trim));
    assert!(g.needs_recompute(res(800, 600), scale(2, 1), SizingMode::Overscan));
}
